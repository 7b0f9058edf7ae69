//! Hand-rolled XML codec for the backend protocol: entity escaping with the
//! quote-restoring correction applied to generated multipart-completion
//! documents, and tag-level extraction for the response documents.

use vstd::prelude::*;
use crate::strutil::{
    spec_find, match_at, lemma_spec_find_match, find, chars_of, copy_range, push_all,
    push_str_chars, chars_to_string, dec_chars, dec_of, dec_val, all_digits, parse_u64,
};
use crate::types::{PartId, ObjectMeta};
use crate::request::opt_str_view;
use crate::errors::Error;

verus! {

pub open spec fn amp_entity() -> Seq<char> {
    seq!['&', 'a', 'm', 'p', ';']
}

pub open spec fn lt_entity() -> Seq<char> {
    seq!['&', 'l', 't', ';']
}

pub open spec fn gt_entity() -> Seq<char> {
    seq!['&', 'g', 't', ';']
}

pub open spec fn quot_entity() -> Seq<char> {
    seq!['&', 'q', 'u', 'o', 't', ';']
}

pub open spec fn apos_entity() -> Seq<char> {
    seq!['&', 'a', 'p', 'o', 's', ';']
}

/// How the serializer writes one character of text content.
pub open spec fn esc_char(c: char) -> Seq<char> {
    if c == '&' {
        amp_entity()
    } else if c == '<' {
        lt_entity()
    } else if c == '>' {
        gt_entity()
    } else if c == '"' {
        quot_entity()
    } else if c == '\'' {
        apos_entity()
    } else {
        seq![c]
    }
}

/// The entity-escaped form of a text.
pub open spec fn xml_escaped(s: Seq<char>) -> Seq<char>
    decreases s.len(),
{
    if s.len() == 0 {
        Seq::<char>::empty()
    } else {
        esc_char(s[0]) + xml_escaped(s.drop_first())
    }
}

/// Escaping distributes over concatenation.
pub proof fn lemma_escaped_append(a: Seq<char>, b: Seq<char>)
    ensures
        xml_escaped(a + b) == xml_escaped(a) + xml_escaped(b),
    decreases a.len(),
{
    if a.len() == 0 {
        assert(a + b =~= b);
        assert(xml_escaped(a) + xml_escaped(b) =~= xml_escaped(b));
    } else {
        assert((a + b).drop_first() =~= a.drop_first() + b);
        lemma_escaped_append(a.drop_first(), b);
        assert(esc_char((a + b)[0]) + (xml_escaped(a.drop_first()) + xml_escaped(b)) =~= (esc_char(
            a[0],
        ) + xml_escaped(a.drop_first())) + xml_escaped(b));
    }
}

/// The quote-restoring correction applied to a serialized document before
/// transmission: every `&quot;` becomes a literal double quote, scanning
/// left to right.
pub open spec fn unquot(s: Seq<char>) -> Seq<char>
    decreases s.len(),
{
    if s.len() == 0 {
        Seq::<char>::empty()
    } else if s.len() >= 6 && s.subrange(0, 6) == quot_entity() {
        seq!['"'] + unquot(s.skip(6))
    } else {
        seq![s[0]] + unquot(s.skip(1))
    }
}

/// Whether `pat` occurs in `s` at exactly position `i`.
pub fn starts_with_at(s: &Vec<char>, i: usize, pat: &Vec<char>) -> (r: bool)
    requires
        i <= s@.len(),
    ensures
        r == match_at(s@, pat@, i as int),
{
    let n = s.len();
    let m = pat.len();
    if m > n - i {
        return false;
    }
    let mut j: usize = 0;
    while j < m
        invariant
            n == s@.len(),
            m == pat@.len(),
            i + m <= n,
            j <= m,
            forall|k: int| 0 <= k < j ==> s@[i + k] == pat@[k],
        decreases m - j,
    {
        if s[i + j] != pat[j] {
            proof {
                assert(s@.subrange(i as int, i + pat@.len())[j as int] != pat@[j as int]);
            }
            return false;
        }
        j += 1;
    }
    proof {
        assert(s@.subrange(i as int, i + pat@.len()) =~= pat@);
    }
    true
}

/// Applies the quote-restoring correction.
pub fn unquot_chars(s: &Vec<char>) -> (r: Vec<char>)
    ensures
        r@ == unquot(s@),
{
    let quot = chars_of("&quot;");
    proof {
        reveal_strlit("&quot;");
        assert(quot@ =~= quot_entity());
    }
    let mut out: Vec<char> = Vec::new();
    let mut i: usize = 0;
    let n = s.len();
    proof {
        assert(s@.skip(0) =~= s@);
        assert(out@ + unquot(s@) =~= unquot(s@));
    }
    while i < n
        invariant
            n == s@.len(),
            i <= n,
            quot@ == quot_entity(),
            unquot(s@) == out@ + unquot(s@.skip(i as int)),
        decreases n - i,
    {
        if starts_with_at(s, i, &quot) {
            out.push('"');
            proof {
                assert(s@.skip(i as int).subrange(0, 6) =~= s@.subrange(i as int, i + 6));
                assert(s@.skip(i as int).skip(6) =~= s@.skip(i + 6));
                assert(unquot(s@.skip(i as int)) == seq!['"'] + unquot(s@.skip(i + 6)));
                assert(out@ + unquot(s@.skip(i + 6)) =~= out@.drop_last() + (seq!['"'] + unquot(
                    s@.skip(i + 6),
                )));
            }
            i += 6;
        } else {
            proof {
                if s@.skip(i as int).len() >= 6 && s@.skip(i as int).subrange(0, 6)
                    == quot_entity() {
                    assert(s@.subrange(i as int, i + 6) =~= s@.skip(i as int).subrange(0, 6));
                    assert(match_at(s@, quot_entity(), i as int));
                    assert(false);
                }
            }
            out.push(s[i]);
            proof {
                assert(s@.skip(i as int)[0] == s@[i as int]);
                assert(s@.skip(i as int).skip(1) =~= s@.skip(i + 1));
            }
            i += 1;
        }
    }
    proof {
        assert(s@.skip(s@.len() as int) =~= Seq::<char>::empty());
    }
    out
}

/// The unescaped form of extracted text content: each of the five standard
/// entities becomes its character, scanning left to right.
pub open spec fn xml_unescaped(s: Seq<char>) -> Seq<char>
    decreases s.len(),
{
    if s.len() == 0 {
        Seq::<char>::empty()
    } else if s.len() >= 5 && s.subrange(0, 5) == amp_entity() {
        seq!['&'] + xml_unescaped(s.skip(5))
    } else if s.len() >= 4 && s.subrange(0, 4) == lt_entity() {
        seq!['<'] + xml_unescaped(s.skip(4))
    } else if s.len() >= 4 && s.subrange(0, 4) == gt_entity() {
        seq!['>'] + xml_unescaped(s.skip(4))
    } else if s.len() >= 6 && s.subrange(0, 6) == quot_entity() {
        seq!['"'] + xml_unescaped(s.skip(6))
    } else if s.len() >= 6 && s.subrange(0, 6) == apos_entity() {
        seq!['\''] + xml_unescaped(s.skip(6))
    } else {
        seq![s[0]] + xml_unescaped(s.skip(1))
    }
}

/// Replaces the five standard entities by their characters.
pub fn unescape_chars(s: &Vec<char>) -> (r: Vec<char>)
    ensures
        r@ == xml_unescaped(s@),
{
    let amp = chars_of("&amp;");
    let lt = chars_of("&lt;");
    let gt = chars_of("&gt;");
    let quot = chars_of("&quot;");
    let apos = chars_of("&apos;");
    proof {
        reveal_strlit("&amp;");
        reveal_strlit("&lt;");
        reveal_strlit("&gt;");
        reveal_strlit("&quot;");
        reveal_strlit("&apos;");
        assert(amp@ =~= amp_entity());
        assert(lt@ =~= lt_entity());
        assert(gt@ =~= gt_entity());
        assert(quot@ =~= quot_entity());
        assert(apos@ =~= apos_entity());
    }
    let mut out: Vec<char> = Vec::new();
    let mut i: usize = 0;
    let n = s.len();
    proof {
        assert(s@.skip(0) =~= s@);
        assert(out@ + xml_unescaped(s@) =~= xml_unescaped(s@));
    }
    while i < n
        invariant
            n == s@.len(),
            i <= n,
            amp@ == amp_entity(),
            lt@ == lt_entity(),
            gt@ == gt_entity(),
            quot@ == quot_entity(),
            apos@ == apos_entity(),
            xml_unescaped(s@) == out@ + xml_unescaped(s@.skip(i as int)),
        decreases n - i,
    {
        proof {
            assert(s@.skip(i as int).len() == s@.len() - i);
            assert forall|n: int| 0 <= n <= s@.len() - i implies s@.skip(i as int).subrange(0, n)
                =~= s@.subrange(i as int, i + n) by {}
        }
        let (c, step): (char, usize) = if starts_with_at(s, i, &amp) {
            ('&', 5)
        } else if starts_with_at(s, i, &lt) {
            ('<', 4)
        } else if starts_with_at(s, i, &gt) {
            ('>', 4)
        } else if starts_with_at(s, i, &quot) {
            ('"', 6)
        } else if starts_with_at(s, i, &apos) {
            ('\'', 6)
        } else {
            (s[i], 1)
        };
        out.push(c);
        proof {
            assert(s@.skip(i as int)[0] == s@[i as int]);
            assert forall|n: int| 0 <= n && i + n <= s@.len() implies s@.skip(i as int).skip(n)
                =~= s@.skip(i + n) by {}
            assert(xml_unescaped(s@.skip(i as int)) == seq![c] + xml_unescaped(
                s@.skip(i + step),
            ));
            assert(out@ + xml_unescaped(s@.skip(i + step)) =~= out@.drop_last() + (seq![c]
                + xml_unescaped(s@.skip(i + step))));
        }
        i += step;
    }
    proof {
        assert(s@.skip(s@.len() as int) =~= Seq::<char>::empty());
    }
    out
}

/// The raw bounds of the text between the first `open` after `from` and the
/// next `close` after it.
pub open spec fn spec_tag_raw(s: Seq<char>, open: Seq<char>, close: Seq<char>, from: int) -> Option<
    (int, int),
> {
    match spec_find(s, open, from) {
        None => None,
        Some(i) => match spec_find(s, close, i + open.len()) {
            None => None,
            Some(j) => Some((i + open.len() as int, j)),
        },
    }
}

/// Finds the first `open` tag after `from` and the `close` tag after it;
/// returns the content bounds.
pub fn tag_raw(s: &Vec<char>, open: &Vec<char>, close: &Vec<char>, from: usize) -> (r: Option<
    (usize, usize),
>)
    requires
        from <= s@.len(),
    ensures
        spec_tag_raw(s@, open@, close@, from as int) == (match r {
            Some((a, b)) => Some((a as int, b as int)),
            None => None::<(int, int)>,
        }),
        r matches Some((a, b)) ==> from + open@.len() <= a && a <= b && b + close@.len()
            <= s@.len(),
{
    let n = s.len();
    match find(s, open, from) {
        None => None,
        Some(i) => {
            proof {
                assert(i + open@.len() <= n);
            }
            let start = i + open.len();
            match find(s, close, start) {
                None => None,
                Some(j) => Some((start, j)),
            }
        },
    }
}

/// The unescaped text of the first `open`…`close` element, if both tags are
/// found.
pub open spec fn spec_tag_text(s: Seq<char>, open: Seq<char>, close: Seq<char>) -> Option<
    Seq<char>,
> {
    match spec_tag_raw(s, open, close, 0) {
        None => None,
        Some((a, b)) => Some(xml_unescaped(s.subrange(a, b))),
    }
}

/// Extracts and unescapes the first `open`…`close` element's text.
pub fn tag_text(s: &Vec<char>, open: &Vec<char>, close: &Vec<char>) -> (r: Option<Vec<char>>)
    ensures
        spec_tag_text(s@, open@, close@) == (match r {
            Some(v) => Some(v@),
            None => None::<Seq<char>>,
        }),
{
    match tag_raw(s, open, close, 0) {
        None => None,
        Some((a, b)) => {
            let content = copy_range(s, a, b);
            Some(unescape_chars(&content))
        },
    }
}

/// The raw bounds of each successive `open`…`close` block, scanning from
/// `from`.
pub open spec fn spec_blocks(s: Seq<char>, open: Seq<char>, close: Seq<char>, from: int) -> Seq<
    (int, int),
>
    decreases s.len() - from + 1,
{
    if from < 0 || from > s.len() {
        Seq::<(int, int)>::empty()
    } else {
        match spec_tag_raw(s, open, close, from) {
            None => Seq::<(int, int)>::empty(),
            Some((a, b)) => {
                if from < b + close.len() && b + close.len() <= s.len() {
                    seq![(a, b)] + spec_blocks(s, open, close, b + close.len() as int)
                } else {
                    Seq::<(int, int)>::empty()
                }
            },
        }
    }
}

/// The bounds of a block list as mathematical integers.
pub open spec fn blocks_view(v: Seq<(usize, usize)>) -> Seq<(int, int)> {
    v.map_values(|p: (usize, usize)| (p.0 as int, p.1 as int))
}

/// Collects the raw bounds of every successive `open`…`close` block.
pub fn collect_blocks(s: &Vec<char>, open: &Vec<char>, close: &Vec<char>) -> (r: Vec<
    (usize, usize),
>)
    requires
        open@.len() > 0,
    ensures
        spec_blocks(s@, open@, close@, 0) == blocks_view(r@),
{
    let mut out: Vec<(usize, usize)> = Vec::new();
    let mut pos: usize = 0;
    let n = s.len();
    proof {
        assert(blocks_view(out@) + spec_blocks(s@, open@, close@, 0) =~= spec_blocks(
            s@,
            open@,
            close@,
            0,
        ));
    }
    loop
        invariant
            n == s@.len(),
            pos <= n,
            open@.len() > 0,
            spec_blocks(s@, open@, close@, 0) == blocks_view(out@) + spec_blocks(
                s@,
                open@,
                close@,
                pos as int,
            ),
        decreases s@.len() - pos,
    {
        match tag_raw(s, open, close, pos) {
            None => {
                proof {
                    assert(blocks_view(out@) + Seq::<(int, int)>::empty() =~= blocks_view(out@));
                }
                return out;
            },
            Some((a, b)) => {
                out.push((a, b));
                let next = b + close.len();
                proof {
                    assert(blocks_view(out@) =~= blocks_view(out@.drop_last()).push(
                        (a as int, b as int),
                    ));
                    assert(blocks_view(out@.drop_last()) + (seq![(a as int, b as int)]
                        + spec_blocks(s@, open@, close@, next as int)) =~= blocks_view(out@)
                        + spec_blocks(s@, open@, close@, next as int));
                }
                pos = next;
            },
        }
    }
}

} // verus!

use vstd::prelude::*;

verus! {

/// Appends the entity-escaped form of `src` to `dest`.
pub fn escape_append(dest: &mut Vec<char>, src: &Vec<char>)
    ensures
        final(dest)@ == old(dest)@ + xml_escaped(src@),
{
    let n = src.len();
    let mut i: usize = 0;
    proof {
        assert(old(dest)@ + xml_escaped(src@.take(0)) =~= old(dest)@);
    }
    while i < n
        invariant
            n == src@.len(),
            i <= n,
            dest@ == old(dest)@ + xml_escaped(src@.take(i as int)),
        decreases n - i,
    {
        let c = src[i];
        if c == '&' {
            push_str_chars(dest, "&amp;");
            proof { reveal_strlit("&amp;"); }
        } else if c == '<' {
            push_str_chars(dest, "&lt;");
            proof { reveal_strlit("&lt;"); }
        } else if c == '>' {
            push_str_chars(dest, "&gt;");
            proof { reveal_strlit("&gt;"); }
        } else if c == '"' {
            push_str_chars(dest, "&quot;");
            proof { reveal_strlit("&quot;"); }
        } else if c == '\'' {
            push_str_chars(dest, "&apos;");
            proof { reveal_strlit("&apos;"); }
        } else {
            dest.push(c);
        }
        proof {
            lemma_escaped_append(src@.take(i as int), seq![src@[i as int]]);
            assert(src@.take(i + 1) =~= src@.take(i as int) + seq![src@[i as int]]);
            assert(seq![src@[i as int]].drop_first() =~= Seq::<char>::empty());
            assert(xml_escaped(seq![src@[i as int]].drop_first()) == Seq::<char>::empty());
            assert(seq![src@[i as int]][0] == src@[i as int]);
            assert(xml_escaped(seq![src@[i as int]]) =~= esc_char(src@[i as int]));
            assert(dest@ =~= old(dest)@ + xml_escaped(src@.take(i + 1)));
        }
        i += 1;
    }
    proof {
        assert(src@.take(n as int) =~= src@);
    }
}

/// The etags of the uploaded parts, in completion order.
pub open spec fn etags_of(parts: Seq<PartId>) -> Seq<Seq<char>> {
    parts.map_values(|p: PartId| p.content_id@)
}

/// One `Part` element: the part's etag (escaped) and its 1-based number.
pub open spec fn part_xml(etag: Seq<char>, num: nat) -> Seq<char> {
    "<Part><ETag>"@ + xml_escaped(etag) + "</ETag><PartNumber>"@ + dec_of(num)
        + "</PartNumber></Part>"@
}

/// The `Part` list: element `k` carries part number `k + 1`, in the order
/// the caller supplied.
pub open spec fn parts_xml(etags: Seq<Seq<char>>) -> Seq<char>
    decreases etags.len(),
{
    if etags.len() == 0 {
        Seq::<char>::empty()
    } else {
        parts_xml(etags.drop_last()) + part_xml(etags.last(), etags.len() as nat)
    }
}

/// The serialized completion document, before the quote correction.
pub open spec fn complete_doc(etags: Seq<Seq<char>>) -> Seq<char> {
    "<CompleteMultipartUpload>"@ + parts_xml(etags) + "</CompleteMultipartUpload>"@
}

/// Serializes the completion document for the given parts, in order, with
/// the quote-restoring correction applied: the serializer escapes a literal
/// double quote in an etag as `&quot;`, which the backend's parser treats
/// literally, so escaped quotes are put back before transmission.
pub fn complete_multipart_body(parts: &Vec<PartId>) -> (r: String)
    ensures
        r@ == unquot(complete_doc(etags_of(parts@))),
{
    let mut doc: Vec<char> = Vec::new();
    push_str_chars(&mut doc, "<CompleteMultipartUpload>");
    let n = parts.len();
    let mut i: usize = 0;
    proof {
        assert(etags_of(parts@.take(0)) =~= Seq::<Seq<char>>::empty());
        assert(doc@ =~= "<CompleteMultipartUpload>"@ + parts_xml(etags_of(parts@.take(0))));
    }
    while i < n
        invariant
            n == parts@.len(),
            i <= n,
            doc@ == "<CompleteMultipartUpload>"@ + parts_xml(etags_of(parts@.take(i as int))),
        decreases n - i,
    {
        push_str_chars(&mut doc, "<Part><ETag>");
        let etag_chars = chars_of(parts[i].content_id.as_str());
        escape_append(&mut doc, &etag_chars);
        push_str_chars(&mut doc, "</ETag><PartNumber>");
        let num = dec_chars((i as u64) + 1);
        push_all(&mut doc, &num);
        push_str_chars(&mut doc, "</PartNumber></Part>");
        proof {
            assert(etags_of(parts@.take(i + 1)).drop_last() =~= etags_of(parts@.take(i as int)));
            assert(etags_of(parts@.take(i + 1)).last() == parts@[i as int].content_id@);
            assert(etags_of(parts@.take(i + 1)).len() == i + 1);
            assert(doc@ =~= "<CompleteMultipartUpload>"@ + parts_xml(etags_of(parts@.take(i + 1))));
        }
        i += 1;
    }
    push_str_chars(&mut doc, "</CompleteMultipartUpload>");
    proof {
        assert(parts@.take(n as int) =~= parts@);
        assert(doc@ =~= complete_doc(etags_of(parts@)));
    }
    let fixed = unquot_chars(&doc);
    chars_to_string(&fixed)
}

/// A size is decodable when it is one to nineteen decimal digits (every
/// realistic object size; nineteen digits always fit a 64-bit count).
pub open spec fn size_valid(sz: Seq<char>) -> bool {
    0 < sz.len() <= 19 && all_digits(sz)
}

/// What one `Contents` block decodes to: key, last-modified text, size, and
/// optional etag. `None` when a required field is missing or the size is
/// malformed.
pub open spec fn spec_list_entry(c: Seq<char>) -> Option<
    (Seq<char>, Seq<char>, nat, Option<Seq<char>>),
> {
    match spec_tag_text(c, "<Key>"@, "</Key>"@) {
        None => None,
        Some(k) => match spec_tag_text(c, "<LastModified>"@, "</LastModified>"@) {
            None => None,
            Some(lm) => match spec_tag_text(c, "<Size>"@, "</Size>"@) {
                None => None,
                Some(sz) => if size_valid(sz) {
                    Some((k, lm, dec_val(sz), spec_tag_text(c, "<ETag>"@, "</ETag>"@)))
                } else {
                    None
                },
            },
        },
    }
}

/// The view a decoded entry presents for specification purposes.
pub open spec fn om_view(m: &ObjectMeta) -> (Seq<char>, Seq<char>, nat, Option<Seq<char>>) {
    (m.location@, m.last_modified@, m.size as nat, opt_str_view(m.e_tag))
}

/// Decodes one `Contents` block.
pub fn parse_list_entry(c: &Vec<char>) -> (r: Option<ObjectMeta>)
    ensures
        r is Some <==> spec_list_entry(c@) is Some,
        r matches Some(m) ==> spec_list_entry(c@) == Some(om_view(&m)),
{
    let key_open = chars_of("<Key>");
    let key_close = chars_of("</Key>");
    let key = match tag_text(c, &key_open, &key_close) {
        None => {
            return None;
        },
        Some(k) => k,
    };
    let lm_open = chars_of("<LastModified>");
    let lm_close = chars_of("</LastModified>");
    let lm = match tag_text(c, &lm_open, &lm_close) {
        None => {
            return None;
        },
        Some(v) => v,
    };
    let sz_open = chars_of("<Size>");
    let sz_close = chars_of("</Size>");
    let sz = match tag_text(c, &sz_open, &sz_close) {
        None => {
            return None;
        },
        Some(v) => v,
    };
    if sz.len() == 0 || sz.len() > 19 {
        return None;
    }
    let size = match parse_u64(&sz) {
        None => {
            return None;
        },
        Some(v) => v,
    };
    let etag_open = chars_of("<ETag>");
    let etag_close = chars_of("</ETag>");
    let e_tag = match tag_text(c, &etag_open, &etag_close) {
        None => None,
        Some(v) => Some(chars_to_string(&v)),
    };
    Some(
        ObjectMeta {
            location: chars_to_string(&key),
            last_modified: chars_to_string(&lm),
            size,
            e_tag,
        },
    )
}

} // verus!

verus! {

/// Every block a block scan yields lies inside the text.
pub proof fn lemma_spec_blocks_bounds(s: Seq<char>, open: Seq<char>, close: Seq<char>, from: int)
    ensures
        forall|k: int|
            0 <= k < spec_blocks(s, open, close, from).len() ==> from <= (
            #[trigger] spec_blocks(s, open, close, from)[k]).0 && spec_blocks(
                s,
                open,
                close,
                from,
            )[k].0 <= spec_blocks(s, open, close, from)[k].1 && spec_blocks(
                s,
                open,
                close,
                from,
            )[k].1 <= s.len(),
    decreases s.len() - from + 1,
{
    if 0 <= from <= s.len() {
        lemma_spec_find_match(s, open, from);
        match spec_find(s, open, from) {
            None => {},
            Some(i) => {
                lemma_spec_find_match(s, close, i + open.len());
                match spec_find(s, close, i + open.len() as int) {
                    None => {},
                    Some(j) => {
                        let next = j + close.len() as int;
                        if from < next && next <= s.len() {
                            lemma_spec_blocks_bounds(s, open, close, next);
                            assert forall|k: int|
                                0 <= k < spec_blocks(s, open, close, from).len() implies from <= (
                                #[trigger] spec_blocks(s, open, close, from)[k]).0 && spec_blocks(
                                    s,
                                    open,
                                    close,
                                    from,
                                )[k].0 <= spec_blocks(s, open, close, from)[k].1 && spec_blocks(
                                    s,
                                    open,
                                    close,
                                    from,
                                )[k].1 <= s.len() by {
                                if k > 0 {
                                    assert(spec_blocks(s, open, close, from)[k] == spec_blocks(
                                        s,
                                        open,
                                        close,
                                        next,
                                    )[k - 1]);
                                }
                            }
                        }
                    },
                }
            },
        }
    }
}

/// The views a decoded listing presents for specification purposes.
pub open spec fn oms_view(v: Seq<ObjectMeta>) -> Seq<(Seq<char>, Seq<char>, nat, Option<Seq<char>>)> {
    v.map_values(
        |m: ObjectMeta| (m.location@, m.last_modified@, m.size as nat, opt_str_view(m.e_tag)),
    )
}

pub open spec fn strs_view(v: Seq<String>) -> Seq<Seq<char>> {
    v.map_values(|s: String| s@)
}

/// What a listing document decodes to: the entries of every `Contents`
/// block in order, every `CommonPrefixes` prefix in order, and the
/// continuation token iff one is present. `None` when any block is
/// malformed.
pub open spec fn spec_list_parse(s: Seq<char>) -> Option<
    (Seq<(Seq<char>, Seq<char>, nat, Option<Seq<char>>)>, Seq<Seq<char>>, Option<Seq<char>>),
> {
    let cb = spec_blocks(s, "<Contents>"@, "</Contents>"@, 0);
    let pb = spec_blocks(s, "<CommonPrefixes>"@, "</CommonPrefixes>"@, 0);
    if (forall|k: int|
        0 <= k < cb.len() ==> (#[trigger] spec_list_entry(s.subrange(cb[k].0, cb[k].1))) is Some)
        && (forall|k: int|
        0 <= k < pb.len() ==> (#[trigger] spec_tag_text(
            s.subrange(pb[k].0, pb[k].1),
            "<Prefix>"@,
            "</Prefix>"@,
        )) is Some) {
        Some(
            (
                Seq::new(cb.len(), |k: int| spec_list_entry(s.subrange(cb[k].0, cb[k].1))->0),
                Seq::new(
                    pb.len(),
                    |k: int|
                        spec_tag_text(s.subrange(pb[k].0, pb[k].1), "<Prefix>"@, "</Prefix>"@)->0,
                ),
                spec_tag_text(s, "<NextContinuationToken>"@, "</NextContinuationToken>"@),
            ),
        )
    } else {
        None
    }
}

/// Decodes a listing document: entries, common prefixes, and the
/// continuation token. Any malformed block is a protocol mismatch and fails
/// the whole decode.
pub fn parse_list_response(body: &str) -> (r: Result<
    (Vec<ObjectMeta>, Vec<String>, Option<String>),
    Error,
>)
    ensures
        r is Ok <==> spec_list_parse(body@) is Some,
        r matches Ok(t) ==> spec_list_parse(body@) == Some(
            (oms_view(t.0@), strs_view(t.1@), opt_str_view(t.2)),
        ),
        r matches Err(e) ==> e == Error::InvalidListResponse,
{
    let chars = chars_of(body);
    let copen = chars_of("<Contents>");
    let cclose = chars_of("</Contents>");
    proof {
        reveal_strlit("<Contents>");
    }
    let cblocks = collect_blocks(&chars, &copen, &cclose);
    proof {
        lemma_spec_blocks_bounds(chars@, copen@, cclose@, 0);
    }
    let ghost cb = spec_blocks(body@, "<Contents>"@, "</Contents>"@, 0);
    let mut objects: Vec<ObjectMeta> = Vec::new();
    let cn = cblocks.len();
    let mut i: usize = 0;
    while i < cn
        invariant
            cn == cblocks@.len(),
            i <= cn,
            cb == spec_blocks(body@, "<Contents>"@, "</Contents>"@, 0),
            spec_blocks(chars@, copen@, cclose@, 0) == blocks_view(cblocks@),
            chars@ == body@,
            copen@ == "<Contents>"@,
            cclose@ == "</Contents>"@,
            forall|k: int|
                0 <= k < cb.len() ==> 0 <= (#[trigger] cb[k]).0 && cb[k].0 <= cb[k].1 && cb[k].1
                    <= body@.len(),
            objects@.len() == i,
            forall|k: int|
                0 <= k < i ==> (#[trigger] spec_list_entry(body@.subrange(cb[k].0, cb[k].1)))
                    == Some(om_view(&objects@[k])),
        decreases cn - i,
    {
        let (a, b) = (cblocks[i].0, cblocks[i].1);
        proof {
            assert(blocks_view(cblocks@)[i as int] == (a as int, b as int));
            assert(cb[i as int] == (a as int, b as int));
        }
        let content = copy_range(&chars, a, b);
        match parse_list_entry(&content) {
            None => {
                proof {
                    assert(spec_list_entry(body@.subrange(cb[i as int].0, cb[i as int].1))
                        is None);
                }
                return Err(Error::InvalidListResponse);
            },
            Some(m) => {
                objects.push(m);
            },
        }
        i += 1;
    }
    let popen = chars_of("<CommonPrefixes>");
    let pclose = chars_of("</CommonPrefixes>");
    proof {
        reveal_strlit("<CommonPrefixes>");
    }
    let pblocks = collect_blocks(&chars, &popen, &pclose);
    proof {
        lemma_spec_blocks_bounds(chars@, popen@, pclose@, 0);
    }
    let ghost pb = spec_blocks(body@, "<CommonPrefixes>"@, "</CommonPrefixes>"@, 0);
    let prefix_open = chars_of("<Prefix>");
    let prefix_close = chars_of("</Prefix>");
    let mut prefixes: Vec<String> = Vec::new();
    let pn = pblocks.len();
    let mut j: usize = 0;
    while j < pn
        invariant
            pn == pblocks@.len(),
            j <= pn,
            pb == spec_blocks(body@, "<CommonPrefixes>"@, "</CommonPrefixes>"@, 0),
            spec_blocks(chars@, popen@, pclose@, 0) == blocks_view(pblocks@),
            chars@ == body@,
            popen@ == "<CommonPrefixes>"@,
            pclose@ == "</CommonPrefixes>"@,
            prefix_open@ == "<Prefix>"@,
            prefix_close@ == "</Prefix>"@,
            forall|k: int|
                0 <= k < pb.len() ==> 0 <= (#[trigger] pb[k]).0 && pb[k].0 <= pb[k].1 && pb[k].1
                    <= body@.len(),
            prefixes@.len() == j,
            forall|k: int|
                0 <= k < j ==> (#[trigger] spec_tag_text(
                    body@.subrange(pb[k].0, pb[k].1),
                    "<Prefix>"@,
                    "</Prefix>"@,
                )) == Some(prefixes@[k]@),
        decreases pn - j,
    {
        let (a, b) = (pblocks[j].0, pblocks[j].1);
        proof {
            assert(blocks_view(pblocks@)[j as int] == (a as int, b as int));
            assert(pb[j as int] == (a as int, b as int));
        }
        let content = copy_range(&chars, a, b);
        match tag_text(&content, &prefix_open, &prefix_close) {
            None => {
                proof {
                    assert(spec_tag_text(
                        body@.subrange(pb[j as int].0, pb[j as int].1),
                        "<Prefix>"@,
                        "</Prefix>"@,
                    ) is None);
                }
                return Err(Error::InvalidListResponse);
            },
            Some(v) => {
                prefixes.push(chars_to_string(&v));
            },
        }
        j += 1;
    }
    let token_open = chars_of("<NextContinuationToken>");
    let token_close = chars_of("</NextContinuationToken>");
    let token = match tag_text(&chars, &token_open, &token_close) {
        None => None,
        Some(v) => Some(chars_to_string(&v)),
    };
    proof {
        assert(oms_view(objects@) =~= Seq::new(
            cb.len(),
            |k: int| spec_list_entry(body@.subrange(cb[k].0, cb[k].1))->0,
        ));
        assert(strs_view(prefixes@) =~= Seq::new(
            pb.len(),
            |k: int|
                spec_tag_text(body@.subrange(pb[k].0, pb[k].1), "<Prefix>"@, "</Prefix>"@)->0,
        ));
    }
    Ok((objects, prefixes, token))
}

} // verus!
