//! Retrieval steps of the web search tool: which pages to read, how their text
//! is cut into sections, how sections are ranked, and the evidence string.

use vstd::prelude::*;
use vstd::set_lib::{lemma_int_range, lemma_len_subset, set_int_range};
use crate::error::AgentError;
use crate::text::{chars_of, trim, trim_bounds, trim_str};

verus! {

/// The largest section, in characters, that packing builds from several sentences.
pub const MAX_SECTION_LEN: usize = 1600;

/// How many ranked sections the evidence string holds.
pub const TOP_N_SECTIONS: usize = 3;

/// How many search results are fetched.
pub const MAX_LINKS: usize = 6;

/// Extracted page text of at most this many characters is discarded as noise.
pub const MIN_TEXT_LEN: usize = 50;

pub open spec fn is_terminator(c: char) -> bool {
    c == '.' || c == '\n'
}

/// Position of the first sentence terminator of `s`, or its length if it has none.
pub open spec fn first_terminator(s: Seq<char>) -> int
    decreases s.len(),
{
    if s.len() == 0 {
        0
    } else if is_terminator(s[0]) {
        0
    } else {
        1 + first_terminator(s.drop_first())
    }
}

/// The sentences of `s`: the pieces between terminators, trimmed, empty ones left out.
pub open spec fn sentences(s: Seq<char>) -> Seq<Seq<char>>
    decreases s.len(),
{
    if s.len() == 0 {
        Seq::empty()
    } else {
        let i = first_terminator(s);
        let piece = trim(s.subrange(0, i));
        let rest = if 0 <= i < s.len() {
            sentences(s.subrange(i + 1, s.len() as int))
        } else {
            Seq::empty()
        };
        if piece.len() == 0 {
            rest
        } else {
            seq![piece] + rest
        }
    }
}

/// Greedy packing: each sentence joins the current section, after `". "`, while
/// the result stays within `max` characters; otherwise it starts a new section.
pub open spec fn pack(chunks: Seq<Seq<char>>, sent: Seq<Seq<char>>, max: int) -> Seq<Seq<char>>
    decreases sent.len(),
{
    if sent.len() == 0 {
        chunks
    } else {
        let s = sent[0];
        let next = if chunks.len() > 0 && chunks.last().len() + 2 + s.len() <= max {
            chunks.drop_last().push(chunks.last() + ". "@ + s)
        } else {
            chunks.push(s)
        };
        pack(next, sent.drop_first(), max)
    }
}

/// The sections of `s` for the bound `max`.
pub open spec fn sections_of(s: Seq<char>, max: int) -> Seq<Seq<char>> {
    pack(Seq::empty(), sentences(s), max)
}

pub open spec fn views(v: Seq<String>) -> Seq<Seq<char>> {
    v.map_values(|x: String| x@)
}

proof fn lemma_first_terminator(s: Seq<char>)
    ensures
        0 <= first_terminator(s) <= s.len(),
        first_terminator(s) < s.len() ==> is_terminator(s[first_terminator(s)]),
        forall|j: int| 0 <= j < first_terminator(s) ==> !is_terminator(#[trigger] s[j]),
    decreases s.len(),
{
    if s.len() > 0 && !is_terminator(s[0]) {
        lemma_first_terminator(s.drop_first());
        assert forall|j: int| 0 <= j < first_terminator(s) implies !is_terminator(#[trigger] s[j]) by {
            if j > 0 {
                assert(s[j] == s.drop_first()[j - 1]);
            }
        }
    }
}

proof fn lemma_pack_bound(chunks: Seq<Seq<char>>, sent: Seq<Seq<char>>, max: int, all: Seq<Seq<char>>)
    requires
        forall|i: int| 0 <= i < chunks.len() ==> (#[trigger] chunks[i]).len() <= max || all.contains(chunks[i]),
        forall|i: int| 0 <= i < sent.len() ==> all.contains(#[trigger] sent[i]),
    ensures
        forall|i: int|
            0 <= i < pack(chunks, sent, max).len() ==> (#[trigger] pack(chunks, sent, max)[i]).len() <= max
                || all.contains(pack(chunks, sent, max)[i]),
    decreases sent.len(),
{
    if sent.len() > 0 {
        let s = sent[0];
        assert(all.contains(sent[0]));
        let next = if chunks.len() > 0 && chunks.last().len() + 2 + s.len() <= max {
            chunks.drop_last().push(chunks.last() + ". "@ + s)
        } else {
            chunks.push(s)
        };
        reveal_strlit(". ");
        if chunks.len() > 0 && chunks.last().len() + 2 + s.len() <= max {
            assert forall|i: int| 0 <= i < next.len() implies (#[trigger] next[i]).len() <= max || all.contains(next[i]) by {
                if i < chunks.len() - 1 {
                    assert(next[i] == chunks[i]);
                } else {
                    assert(next[i] == chunks.last() + ". "@ + s);
                }
            }
        } else {
            assert forall|i: int| 0 <= i < next.len() implies (#[trigger] next[i]).len() <= max || all.contains(next[i]) by {
                if i < chunks.len() {
                    assert(next[i] == chunks[i]);
                }
            }
        }
        assert forall|i: int| 0 <= i < sent.drop_first().len() implies all.contains(#[trigger] sent.drop_first()[i]) by {
            assert(sent.drop_first()[i] == sent[i + 1]);
        }
        assert(pack(chunks, sent, max) == pack(next, sent.drop_first(), max));
        lemma_pack_bound(next, sent.drop_first(), max, all);
    }
}

/// The section list after packing sentence `s` into `chunks`.
pub open spec fn pack_one(chunks: Seq<Seq<char>>, s: Seq<char>, max: int) -> Seq<Seq<char>> {
    if chunks.len() > 0 && chunks.last().len() + 2 + s.len() <= max {
        chunks.drop_last().push(chunks.last() + ". "@ + s)
    } else {
        chunks.push(s)
    }
}

proof fn lemma_pack_step(chunks: Seq<Seq<char>>, s: Seq<char>, rest: Seq<Seq<char>>, max: int)
    ensures
        pack(chunks, seq![s] + rest, max) == pack(pack_one(chunks, s, max), rest, max),
{
    let sent = seq![s] + rest;
    assert(sent[0] == s);
    assert(sent.drop_first() =~= rest);
}

/// No section is longer than the bound, unless it is one sentence that alone
/// exceeds it.
pub proof fn lemma_sections_within_bound(s: Seq<char>, max: int)
    ensures
        forall|i: int|
            0 <= i < sections_of(s, max).len() ==> (#[trigger] sections_of(s, max)[i]).len() <= max
                || sentences(s).contains(sections_of(s, max)[i]),
{
    lemma_pack_bound(Seq::empty(), sentences(s), max, sentences(s));
}

/// Splits `input` into sentences and packs them greedily into sections of at
/// most `max_section_len` characters; a sentence longer than that is a section
/// of its own.
pub fn split_text_into_sections(input: &str, max_section_len: usize) -> (r: Vec<String>)
    ensures
        views(r@) == sections_of(input@, max_section_len as int),
{
    let v = chars_of(input);
    let n = v.len();
    let mut result: Vec<String> = Vec::new();
    let mut last_len: usize = 0;
    let mut pos: usize = 0;
    let ghost max = max_section_len as int;
    assert(v@.subrange(0, n as int) =~= v@);
    assert(views(result@) =~= Seq::<Seq<char>>::empty());
    while pos < n
        invariant
            pos <= n == v.len(),
            v@ == input@,
            max == max_section_len as int,
            result.len() > 0 ==> last_len == result@.last()@.len(),
            pack(views(result@), sentences(v@.subrange(pos as int, n as int)), max) == sections_of(
                input@,
                max,
            ),
        decreases n - pos,
    {
        let ghost sub = v@.subrange(pos as int, n as int);
        let mut j: usize = pos;
        while j < n && v[j] != '.' && v[j] != '\n'
            invariant
                pos <= j <= n == v.len(),
                sub == v@.subrange(pos as int, n as int),
                forall|m: int| pos <= m < j ==> !is_terminator(#[trigger] v@[m]),
            decreases n - j,
        {
            j = j + 1;
        }
        proof {
            lemma_first_terminator(sub);
            let f = first_terminator(sub);
            if f < j - pos {
                assert(sub[f] == v@[pos + f]);
            }
            if f > j - pos {
                assert(sub[j - pos] == v@[j as int]);
            }
            assert(f == j - pos);
            assert(sub.subrange(0, j - pos) =~= v@.subrange(pos as int, j as int));
            if j < n {
                assert(sub.subrange(j - pos + 1, sub.len() as int) =~= v@.subrange(
                    j + 1,
                    n as int,
                ));
            } else {
                assert(v@.subrange(n as int, n as int) =~= Seq::<char>::empty());
            }
        }
        let (a, b) = trim_bounds(&v, pos, j);
        let ghost rest = if j < n {
            sentences(v@.subrange(j + 1, n as int))
        } else {
            Seq::<Seq<char>>::empty()
        };
        proof {
            reveal_strlit(". ");
            assert(trim(sub.subrange(0, j - pos)) == v@.subrange(a as int, b as int));
            if a < b {
                assert(sentences(sub) == seq![v@.subrange(a as int, b as int)] + rest);
            } else {
                assert(sentences(sub) == rest);
            }
        }
        if a < b {
            let sentence = input.substring_char(a, b);
            let slen = b - a;
            let ghost piece = sentence@;
            let ghost old_views = views(result@);
            assert((seq![piece] + rest)[0] == piece);
            assert((seq![piece] + rest).drop_first() =~= rest);
            assert(old_views.len() == result.len());
            assert(old_views.len() > 0 ==> old_views.last() == result@.last()@);
            assert(piece.len() == slen);
            if result.len() > 0 && slen <= max_section_len && 2 <= max_section_len - slen
                && last_len <= max_section_len - slen - 2 {
                let mut last = result.pop().unwrap();
                last.append(". ");
                last.append(sentence);
                result.push(last);
                last_len = last_len + 2 + slen;
                assert(views(result@) =~= old_views.drop_last().push(
                    old_views.last() + ". "@ + piece,
                ));
                assert(views(result@) == pack_one(old_views, piece, max));
                proof {
                    lemma_pack_step(old_views, piece, rest, max);
                }
            } else {
                result.push(sentence.to_owned());
                last_len = slen;
                assert(views(result@) =~= old_views.push(piece));
                assert(views(result@) == pack_one(old_views, piece, max));
                proof {
                    lemma_pack_step(old_views, piece, rest, max);
                }
            }
        }
        if j < n {
            pos = j + 1;
        } else {
            pos = n;
            assert(v@.subrange(n as int, n as int) =~= Seq::<char>::empty());
        }
    }
    assert(v@.subrange(pos as int, n as int) =~= Seq::<char>::empty());
    result
}

/// `a` ranks before `b`: a higher score; for equal scores a lower tag; for
/// equal tags too, a lower position.
pub open spec fn ranks_before(scores: Seq<u32>, tags: Seq<usize>, a: int, b: int) -> bool {
    scores[a] > scores[b] || (scores[a] == scores[b] && (tags[a] < tags[b] || (tags[a] == tags[b]
        && a < b)))
}

/// The tags `0, 1, ..., n - 1`: each position tagged by itself.
pub open spec fn positions(n: nat) -> Seq<usize> {
    Seq::new(n, |i: int| i as usize)
}

/// `r` lists, best first, the `k` best positions of `scores` under the order
/// of [`ranks_before`] (all of them if there are fewer).
pub open spec fn is_top_k(scores: Seq<u32>, tags: Seq<usize>, k: int, r: Seq<usize>) -> bool {
    &&& r.len() == (if k < scores.len() { k } else { scores.len() as int })
    &&& forall|i: int| 0 <= i < r.len() ==> (#[trigger] r[i]) < scores.len()
    &&& r.no_duplicates()
    &&& forall|i: int, j: int|
        0 <= i < j < r.len() ==> ranks_before(scores, tags, #[trigger] r[i] as int, #[trigger] r[j] as int)
    &&& forall|i: int, j: int|
        0 <= i < r.len() && 0 <= j < scores.len() && !r.contains(j as usize) ==> #[trigger] ranks_before(
            scores,
            tags,
            r[i] as int,
            j,
        )
}

/// The positions whose score is at least `s`.
pub open spec fn at_least(scores: Seq<u32>, s: u32) -> Set<int> {
    Set::new(|j: int| 0 <= j < scores.len() && scores[j] >= s)
}

pub open spec fn as_ints(r: Seq<usize>) -> Seq<int> {
    r.map_values(|x: usize| x as int)
}

proof fn lemma_as_ints_distinct(r: Seq<usize>)
    requires
        r.no_duplicates(),
    ensures
        as_ints(r).no_duplicates(),
        as_ints(r).to_set().len() == r.len(),
        as_ints(r).to_set().finite(),
{
    let m = as_ints(r);
    assert forall|i: int, j: int| 0 <= i < m.len() && 0 <= j < m.len() && i != j implies m[i] != m[j] by {
        assert(r[i] != r[j]);
    }
    m.unique_seq_to_set();
    vstd::seq_lib::seq_to_set_is_finite(m);
}

/// With fewer distinct positions than `n`, some position below `n` is missing.
proof fn lemma_missing_position(r: Seq<usize>, n: int)
    requires
        r.no_duplicates(),
        r.len() < n,
        n <= usize::MAX,
    ensures
        exists|j: int| 0 <= j < n && !(#[trigger] r.contains(j as usize)),
{
    if forall|j: int| 0 <= j < n ==> #[trigger] r.contains(j as usize) {
        lemma_as_ints_distinct(r);
        lemma_int_range(0, n);
        let m = as_ints(r);
        assert forall|j: int| set_int_range(0, n).contains(j) implies m.to_set().contains(j) by {
            assert(r.contains(j as usize));
            let i = choose|i: int| 0 <= i < r.len() && r[i] == j as usize;
            assert(m[i] == j);
        }
        lemma_len_subset(set_int_range(0, n), m.to_set());
    }
}

/// Ties at the threshold are kept: when at most `k` positions score at least
/// `scores[a]`, position `a` is among the top `k`, and so is every position
/// whose score equals it.
pub proof fn lemma_ties_at_threshold_kept(
    scores: Seq<u32>,
    tags: Seq<usize>,
    k: int,
    r: Seq<usize>,
    a: int,
    b: int,
)
    requires
        is_top_k(scores, tags, k, r),
        0 <= a < scores.len(),
        0 <= b < scores.len(),
        scores[a] == scores[b],
        at_least(scores, scores[a]).len() <= k,
    ensures
        r.contains(a as usize),
        r.contains(b as usize),
{
    lemma_top_k_keeps(scores, tags, k, r, a);
    lemma_top_k_keeps(scores, tags, k, r, b);
}

proof fn lemma_top_k_keeps(scores: Seq<u32>, tags: Seq<usize>, k: int, r: Seq<usize>, a: int)
    requires
        is_top_k(scores, tags, k, r),
        0 <= a < scores.len(),
        at_least(scores, scores[a]).len() <= k,
    ensures
        r.contains(a as usize),
{
    let n = scores.len() as int;
    let s = at_least(scores, scores[a]);
    lemma_int_range(0, n);
    assert(s.subset_of(set_int_range(0, n)));
    lemma_len_subset(s, set_int_range(0, n));
    if !r.contains(a as usize) {
        lemma_as_ints_distinct(r);
        let m = as_ints(r);
        assert forall|x: int| m.to_set().contains(x) implies s.remove(a).contains(x) by {
            let i = choose|i: int| 0 <= i < m.len() && m[i] == x;
            assert(r[i] as int == x);
            assert(ranks_before(scores, tags, r[i] as int, a));
            assert(r[i] != a as usize);
        }
        assert(s.contains(a));
        lemma_len_subset(m.to_set(), s.remove(a));
    }
}

/// The `k` best positions of `scores`, best first; equal scores keep their order.
pub fn top_k(scores: &Vec<u32>, k: usize) -> (r: Vec<usize>)
    ensures
        is_top_k(scores@, positions(scores.len() as nat), k as int, r@),
{
    let mut tags: Vec<usize> = Vec::new();
    let mut i: usize = 0;
    while i < scores.len()
        invariant
            i <= scores.len(),
            tags@ =~= positions(i as nat),
        decreases scores.len() - i,
    {
        tags.push(i);
        i = i + 1;
    }
    top_k_by(scores, &tags, k)
}

/// The `k` best positions of `scores`, best first; equal scores are ordered
/// by their tags.
pub fn top_k_by(scores: &Vec<u32>, tags: &Vec<usize>, k: usize) -> (r: Vec<usize>)
    requires
        tags.len() == scores.len(),
    ensures
        is_top_k(scores@, tags@, k as int, r@),
{
    let n = scores.len();
    let mut chosen: Vec<bool> = Vec::new();
    let mut i: usize = 0;
    while i < n
        invariant
            i <= n == scores.len(),
            chosen.len() == i,
            forall|j: int| 0 <= j < i ==> !(#[trigger] chosen@[j]),
        decreases n - i,
    {
        chosen.push(false);
        i = i + 1;
    }
    let mut r: Vec<usize> = Vec::new();
    while r.len() < k && r.len() < n
        invariant
            n == scores.len(),
            tags.len() == n,
            chosen.len() == n,
            r.len() <= k,
            r.len() <= n,
            forall|j: int| 0 <= j < n ==> (#[trigger] chosen@[j] <==> r@.contains(j as usize)),
            forall|i: int| 0 <= i < r.len() ==> (#[trigger] r@[i]) < n,
            r@.no_duplicates(),
            forall|i: int, j: int|
                0 <= i < j < r.len() ==> ranks_before(scores@, tags@, #[trigger] r@[i] as int, #[trigger] r@[j] as int),
            forall|i: int, j: int|
                0 <= i < r.len() && 0 <= j < n && !r@.contains(j as usize) ==> #[trigger] ranks_before(
                    scores@,
                    tags@,
                    r@[i] as int,
                    j,
                ),
        decreases n - r.len(),
    {
        proof {
            lemma_missing_position(r@, n as int);
        }
        let mut best: usize = n;
        let mut m: usize = 0;
        while m < n
            invariant
                n == scores.len(),
                tags.len() == n,
                chosen.len() == n,
                m <= n,
                best == n || (best < m && !chosen@[best as int]),
                best == n ==> forall|j: int| 0 <= j < m ==> #[trigger] chosen@[j],
                best < n ==> forall|j: int|
                    0 <= j < m && !(#[trigger] chosen@[j]) && j != best ==> ranks_before(
                        scores@,
                        tags@,
                        best as int,
                        j,
                    ),
            decreases n - m,
        {
            if !chosen[m] {
                if best == n || scores[m] > scores[best] || (scores[m] == scores[best]
                    && tags[m] < tags[best]) {
                    best = m;
                }
            }
            m = m + 1;
        }
        proof {
            if best == n {
                let j = choose|j: int| 0 <= j < n && !(#[trigger] r@.contains(j as usize));
                assert(chosen@[j]);
            }
        }
        let ghost old_r = r@;
        let ghost old_chosen = chosen@;
        r.push(best);
        chosen.set(best, true);
        proof {
            assert(!old_r.contains(best));
            assert(r@[old_r.len() as int] == best);
            assert(r@.contains(best));
            assert forall|j: int| 0 <= j < n implies (#[trigger] chosen@[j] <==> r@.contains(j as usize)) by {
                if j != best {
                    assert(chosen@[j] == old_chosen[j]);
                }
                if r@.contains(j as usize) && j != best {
                    let i = choose|i: int| 0 <= i < r.len() && r@[i] == j as usize;
                    assert(old_r[i] == j as usize);
                }
                if old_r.contains(j as usize) {
                    let i = choose|i: int| 0 <= i < old_r.len() && old_r[i] == j as usize;
                    assert(r@[i] == j as usize);
                }
            }
            assert forall|i: int, j: int|
                0 <= i < r.len() && 0 <= j < n && !r@.contains(j as usize) implies #[trigger] ranks_before(
                    scores@,
                    tags@,
                    r@[i] as int,
                    j,
                ) by {
                assert(!old_r.contains(j as usize)) by {
                    if old_r.contains(j as usize) {
                        let x = choose|x: int| 0 <= x < old_r.len() && old_r[x] == j as usize;
                        assert(r@[x] == j as usize);
                    }
                }
                assert(j != best);
                assert(!old_chosen[j]);
                if i < old_r.len() {
                    assert(r@[i] == old_r[i]);
                } else {
                    assert(r@[i] == best);
                    assert(ranks_before(scores@, tags@, best as int, j));
                }
            }
            assert forall|i: int, j: int|
                0 <= i < j < r.len() implies ranks_before(scores@, tags@, #[trigger] r@[i] as int, #[trigger] r@[j] as int) by {
                assert(r@[i] == old_r[i]);
                if j < old_r.len() {
                    assert(r@[j] == old_r[j]);
                }
            }
        }
    }
    r
}

/// The search results that are fetched: the first [`MAX_LINKS`], in order.
pub fn select_links(links: Vec<String>) -> (r: Vec<String>)
    ensures
        r@ == links@.take(if links.len() < MAX_LINKS { links.len() as int } else { MAX_LINKS as int }),
{
    let mut r = links;
    if r.len() > MAX_LINKS {
        r.truncate(MAX_LINKS);
    }
    r
}

/// What the text of a fetched page is, as the readability extraction gives it.
pub uninterp spec fn readable_text_of(html: Seq<char>) -> Seq<char>;

/// Relies on `readable_readability::Readability::parse` (with unlikely
/// candidates stripped and attributes cleaned) followed by the text contents of
/// the node it returns: the main text of an HTML page, which depends on the
/// page alone.
#[verifier::external_body]
fn readable_text(html: &str) -> (r: String)
    ensures
        r@ == readable_text_of(html@),
{
    let mut readability = readable_readability::Readability::new();
    let (node, _metadata) = readability.strip_unlikelys(true).clean_attributes(true).parse(html);
    node.text_contents()
}

/// Extracted text, trimmed, unless it is too short to be more than noise.
pub fn clean_page_text(text: &str) -> (r: Option<String>)
    ensures
        match r {
            Some(t) => t@ == trim(text@) && t@.len() > MIN_TEXT_LEN,
            None => trim(text@).len() <= MIN_TEXT_LEN,
        },
{
    let trimmed = trim_str(text);
    if trimmed.as_str().unicode_len() > MIN_TEXT_LEN {
        Some(trimmed)
    } else {
        None
    }
}

/// The main text of a fetched page, trimmed, unless it is too short to be more than noise.
pub fn extract_page_text(html: &str) -> (r: Option<String>)
    ensures
        match r {
            Some(t) => t@ == trim(readable_text_of(html@)) && t@.len() > MIN_TEXT_LEN,
            None => trim(readable_text_of(html@)).len() <= MIN_TEXT_LEN,
        },
{
    let text = readable_text(html);
    clean_page_text(text.as_str())
}

/// The texts sent for embedding: each section behind the `passage: ` prefix.
pub fn passage_inputs(sections: &Vec<String>) -> (r: Vec<String>)
    ensures
        r.len() == sections.len(),
        forall|i: int| 0 <= i < r.len() ==> (#[trigger] r@[i])@ == "passage: "@ + sections@[i]@,
{
    let mut r: Vec<String> = Vec::new();
    let mut i: usize = 0;
    while i < sections.len()
        invariant
            i <= sections.len(),
            r.len() == i,
            forall|j: int| 0 <= j < i ==> (#[trigger] r@[j])@ == "passage: "@ + sections@[j]@,
        decreases sections.len() - i,
    {
        let mut p = String::new();
        p.append("passage: ");
        p.append(sections[i].as_str());
        r.push(p);
        i = i + 1;
    }
    r
}

/// The text embedded for the query: the question behind the `query: ` prefix.
pub fn question_query(question: &str) -> (r: String)
    ensures
        r@ == "query: "@ + question@,
{
    let mut q = String::new();
    q.append("query: ");
    q.append(question);
    q
}

/// The scores of a list of tagged scores, in list order.
pub open spec fn scores_of(tagged: Seq<(usize, u32)>) -> Seq<u32> {
    tagged.map_values(|t: (usize, u32)| t.1)
}

/// The tags of a list of tagged scores, in list order.
pub open spec fn tags_of(tagged: Seq<(usize, u32)>) -> Seq<usize> {
    tagged.map_values(|t: (usize, u32)| t.0)
}

/// Ranks tagged scores and hands back the tags (section indices) of the `k`
/// best, best first; equal scores are ordered by tag, so with distinct tags
/// the order in which the scores arrive does not matter.
pub fn rank_sections(tagged: &Vec<(usize, u32)>, k: usize) -> (r: Vec<usize>)
    ensures
        exists|p: Seq<usize>|
            is_top_k(scores_of(tagged@), tags_of(tagged@), k as int, p) && r.len() == p.len()
                && forall|i: int| 0 <= i < p.len() ==> (#[trigger] r@[i]) == tagged@[p[i] as int].0,
{
    let mut scores: Vec<u32> = Vec::new();
    let mut tags: Vec<usize> = Vec::new();
    let mut i: usize = 0;
    while i < tagged.len()
        invariant
            i <= tagged.len(),
            scores@ =~= scores_of(tagged@.take(i as int)),
            tags@ =~= tags_of(tagged@.take(i as int)),
        decreases tagged.len() - i,
    {
        scores.push(tagged[i].1);
        tags.push(tagged[i].0);
        i = i + 1;
    }
    assert(tagged@.take(i as int) =~= tagged@);
    let top = top_k_by(&scores, &tags, k);
    let mut r: Vec<usize> = Vec::new();
    let mut j: usize = 0;
    while j < top.len()
        invariant
            j <= top.len(),
            is_top_k(scores@, tags@, k as int, top@),
            scores.len() == tagged.len(),
            r.len() == j,
            forall|m: int| 0 <= m < j ==> (#[trigger] r@[m]) == tagged@[top@[m] as int].0,
        decreases top.len() - j,
    {
        r.push(tagged[top[j]].0);
        j = j + 1;
    }
    r
}

/// One digit, for positions below ten.
pub open spec fn digit(n: int) -> Seq<char> {
    "0123456789"@.subrange(n, n + 1)
}

/// One line of evidence: the citation marker, the rank and the section.
pub open spec fn evidence_line(n: int, text: Seq<char>) -> Seq<char> {
    "[WEB_RESULT "@ + digit(n) + "]: "@ + text
}

/// The lines `ls` joined with newlines, with no newline at the end.
pub open spec fn join_lines(ls: Seq<Seq<char>>) -> Seq<char>
    decreases ls.len(),
{
    if ls.len() == 0 {
        Seq::empty()
    } else if ls.len() == 1 {
        ls[0]
    } else {
        join_lines(ls.drop_last()) + "\n"@ + ls.last()
    }
}

/// How many sections the evidence string holds for `count` ranked sections.
pub open spec fn evidence_count(count: int) -> int {
    if count < TOP_N_SECTIONS { count } else { TOP_N_SECTIONS as int }
}

/// The evidence string: one line for each of the best [`TOP_N_SECTIONS`] sections.
pub open spec fn evidence(sections: Seq<Seq<char>>, ranked: Seq<usize>) -> Seq<char> {
    join_lines(
        Seq::new(
            evidence_count(ranked.len() as int) as nat,
            |i: int| evidence_line(i, sections[ranked[i] as int]),
        ),
    )
}

/// Formats the best ranked sections as the tool's evidence string; fails when
/// a ranked index names no section.
pub fn synthesize(sections: &Vec<String>, ranked: &Vec<usize>) -> (r: Result<String, AgentError>)
    ensures
        match r {
            Ok(t) => (forall|i: int| 0 <= i < evidence_count(ranked.len() as int) ==> (#[trigger] ranked@[i]) < sections.len())
                && t@ == evidence(views(sections@), ranked@),
            Err(e) => exists|i: int| 0 <= i < evidence_count(ranked.len() as int) && (#[trigger] ranked@[i]) >= sections.len(),
        },
{
    let count: usize = if ranked.len() < TOP_N_SECTIONS { ranked.len() } else { TOP_N_SECTIONS };
    let digits = "0123456789";
    proof {
        reveal_strlit("0123456789");
    }
    let ghost f = |i: int| evidence_line(i, views(sections@)[ranked@[i] as int]);
    let mut out = String::new();
    let mut i: usize = 0;
    assert(Seq::new(0, f) =~= Seq::<Seq<char>>::empty());
    while i < count
        invariant
            i <= count <= TOP_N_SECTIONS,
            count == evidence_count(ranked.len() as int),
            digits@ == "0123456789"@,
            digits@.len() == 10,
            f == (|i: int| evidence_line(i, views(sections@)[ranked@[i] as int])),
            forall|j: int| 0 <= j < i ==> (#[trigger] ranked@[j]) < sections.len(),
            out@ == join_lines(Seq::new(i as nat, f)),
        decreases count - i,
    {
        let idx = ranked[i];
        if idx >= sections.len() {
            return Err(AgentError::ProtocolViolation("index".to_owned()));
        }
        let ghost before = out@;
        if i > 0 {
            out.append("\n");
        }
        out.append("[WEB_RESULT ");
        out.append(digits.substring_char(i, i + 1));
        out.append("]: ");
        out.append(sections[idx].as_str());
        proof {
            let s1 = Seq::new((i + 1) as nat, f);
            assert(s1.drop_last() =~= Seq::new(i as nat, f));
            assert(s1.last() == f(i as int));
            if i == 0 {
                assert(Seq::new(0, f) =~= Seq::<Seq<char>>::empty());
                assert(out@ =~= s1[0]);
            } else {
                assert(out@ =~= before + "\n"@ + s1.last());
            }
        }
        i = i + 1;
    }
    assert(Seq::new(count as nat, f) =~= Seq::new(
        evidence_count(ranked.len() as int) as nat,
        |i: int| evidence_line(i, views(sections@)[ranked@[i] as int]),
    ));
    Ok(out)
}

} // verus!
