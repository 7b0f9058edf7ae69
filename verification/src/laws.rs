//! The load-bearing protocol laws, stated and proved over the same spec
//! functions the operation contracts use.

use vstd::prelude::*;
use crate::request::{Request, plans_match};
use crate::client::{GoogleCloudStorageClient, overwrite_empty_put_shape};
use crate::xml::{xml_escaped, unquot, quot_entity, esc_char};

verus! {

/// Completing a multipart session with zero parts performs the very same
/// request as an ordinary empty-payload unconditional overwrite put: any two
/// plans of that shape are observably equal, so the transport must answer
/// them alike and the same `PutResult` comes back.
pub proof fn lemma_zero_part_completion_equivalence(
    a: &Request,
    b: &Request,
    c: &GoogleCloudStorageClient,
    path: Seq<char>,
)
    requires
        overwrite_empty_put_shape(a, c, path),
        overwrite_empty_put_shape(b, c, path),
    ensures
        plans_match(a, b),
{
}

/// An etag that holds no ampersand, angle bracket or apostrophe — a literal
/// double quote is fine — survives serialization followed by the
/// quote-restoring correction unchanged: the correction undoes exactly the
/// escaping the serializer applied to it.
pub proof fn lemma_escape_fixup_roundtrip(s: Seq<char>)
    requires
        forall|i: int|
            0 <= i < s.len() ==> #[trigger] s[i] != '&' && s[i] != '<' && s[i] != '>' && s[i]
                != '\'',
    ensures
        unquot(xml_escaped(s)) == s,
    decreases s.len(),
{
    if s.len() > 0 {
        let c = s[0];
        let t = s.drop_first();
        assert(forall|i: int|
            0 <= i < t.len() ==> #[trigger] t[i] != '&' && t[i] != '<' && t[i] != '>' && t[i]
                != '\'');
        lemma_escape_fixup_roundtrip(t);
        let e = xml_escaped(s);
        if c == '"' {
            assert(e == quot_entity() + xml_escaped(t));
            assert(e.subrange(0, 6) =~= quot_entity());
            assert(e.skip(6) =~= xml_escaped(t));
            assert(unquot(e) == seq!['"'] + unquot(xml_escaped(t)));
            assert(seq!['"'] + t =~= s);
        } else {
            assert(esc_char(c) == seq![c]);
            assert(e == seq![c] + xml_escaped(t));
            assert(e[0] == c);
            if e.len() >= 6 && e.subrange(0, 6) == quot_entity() {
                assert(e.subrange(0, 6)[0] == '&');
                assert(false);
            }
            assert(e.skip(1) =~= xml_escaped(t));
            assert(unquot(e) == seq![c] + unquot(xml_escaped(t)));
            assert(seq![c] + t =~= s);
        }
    }
}

/// What the backend stores after the part uploads: part number
/// `index + 1` maps to that part's bytes, whatever order the uploads were
/// issued in, because each upload carries its own part number.
pub open spec fn store_after(d: Seq<Seq<u8>>, order: Seq<int>) -> Map<int, Seq<u8>>
    decreases order.len(),
{
    if order.len() == 0 {
        Map::<int, Seq<u8>>::empty()
    } else {
        store_after(d, order.drop_last()).insert(order.last() + 1, d[order.last()])
    }
}

/// The object the backend assembles on completion: the parts numbered
/// `1..=k`, concatenated in number order.
pub open spec fn assembled(m: Map<int, Seq<u8>>, k: nat) -> Seq<u8>
    decreases k,
{
    if k == 0 {
        Seq::<u8>::empty()
    } else {
        assembled(m, (k - 1) as nat) + m[k as int]
    }
}

/// The caller-supplied parts concatenated in index order.
pub open spec fn concat_in_order(d: Seq<Seq<u8>>) -> Seq<u8>
    decreases d.len(),
{
    if d.len() == 0 {
        Seq::<u8>::empty()
    } else {
        concat_in_order(d.drop_last()) + d.last()
    }
}

proof fn lemma_store_after_lookup(d: Seq<Seq<u8>>, order: Seq<int>, i: int)
    requires
        forall|k: int| 0 <= k < order.len() ==> 0 <= #[trigger] order[k] < d.len(),
        order.contains(i),
        0 <= i < d.len(),
    ensures
        store_after(d, order).contains_key(i + 1),
        store_after(d, order)[i + 1] == d[i],
    decreases order.len(),
{
    if order.len() > 0 {
        if order.last() == i {
        } else {
            let k = choose|k: int| 0 <= k < order.len() && order[k] == i;
            assert(order.drop_last()[k] == i);
            assert(order.drop_last().contains(i));
            lemma_store_after_lookup(d, order.drop_last(), i);
        }
    }
}

proof fn lemma_assembled_matches(m: Map<int, Seq<u8>>, d: Seq<Seq<u8>>, k: nat)
    requires
        k <= d.len(),
        forall|j: int| 1 <= j <= d.len() ==> #[trigger] m.contains_key(j) && m[j] == d[j - 1],
    ensures
        assembled(m, k) == concat_in_order(d.take(k as int)),
    decreases k,
{
    if k > 0 {
        lemma_assembled_matches(m, d, (k - 1) as nat);
        assert(m.contains_key(k as int));
        assert(m[k as int] == d[k - 1]);
        assert(d.take(k as int).drop_last() =~= d.take(k - 1));
        assert(d.take(k as int).last() == d[k - 1]);
    } else {
        assert(concat_in_order(d.take(0)) == Seq::<u8>::empty());
    }
}

/// Part ordering: whatever order the parts were uploaded in, as long as
/// every part index was uploaded, completion assembles exactly the
/// caller-supplied parts concatenated in index order — because each upload
/// addresses its 1-based part number, and the completion document lists the
/// numbers in index order.
pub proof fn lemma_part_order_independent(d: Seq<Seq<u8>>, order: Seq<int>)
    requires
        forall|k: int| 0 <= k < order.len() ==> 0 <= #[trigger] order[k] < d.len(),
        forall|i: int| 0 <= i < d.len() ==> order.contains(i),
    ensures
        assembled(store_after(d, order), d.len() as nat) == concat_in_order(d),
{
    let m = store_after(d, order);
    assert forall|j: int| 1 <= j <= d.len() implies #[trigger] m.contains_key(j) && m[j] == d[j
        - 1] by {
        lemma_store_after_lookup(d, order, j - 1);
    }
    lemma_assembled_matches(m, d, d.len() as nat);
    assert(d.take(d.len() as int) =~= d);
}

/// The entries of pages `i..`, in order.
pub open spec fn entries_from<T>(pages: Seq<(Seq<T>, bool)>, i: int) -> Seq<T>
    decreases pages.len() - i + 1,
{
    if 0 <= i < pages.len() {
        pages[i].0 + entries_from(pages, i + 1)
    } else {
        Seq::<T>::empty()
    }
}

/// What a caller that follows continuation tokens collects, starting at
/// page `i`: the page's entries, then — only when the page carries a token —
/// whatever the next call yields. The recursion bottoms out, so the walk
/// terminates after finitely many calls.
pub open spec fn collect_following<T>(pages: Seq<(Seq<T>, bool)>, i: int) -> Seq<T>
    decreases pages.len() - i + 1,
{
    if 0 <= i < pages.len() {
        pages[i].0 + (if pages[i].1 {
            collect_following(pages, i + 1)
        } else {
            Seq::<T>::empty()
        })
    } else {
        Seq::<T>::empty()
    }
}

/// A page sequence paginates a full listing when its entries concatenate to
/// the full listing and a page carries a token exactly when more pages
/// follow.
pub open spec fn is_pagination<T>(pages: Seq<(Seq<T>, bool)>, full: Seq<T>) -> bool {
    &&& entries_from(pages, 0) == full
    &&& forall|i: int| 0 <= i < pages.len() ==> ((#[trigger] pages[i].1) <==> i + 1 < pages.len())
}

proof fn lemma_collect_following<T>(pages: Seq<(Seq<T>, bool)>, i: int)
    requires
        forall|k: int| 0 <= k < pages.len() ==> ((#[trigger] pages[k].1) <==> k + 1 < pages.len()),
    ensures
        collect_following(pages, i) == entries_from(pages, i),
    decreases pages.len() - i + 1,
{
    if 0 <= i < pages.len() {
        lemma_collect_following(pages, i + 1);
        if !pages[i].1 {
            assert(entries_from(pages, i + 1) == Seq::<T>::empty());
        }
    }
}

/// Pagination termination: following `next_page_token` from the first page
/// visits each page exactly once — the walk is a structural recursion that
/// terminates — and the concatenation of all visited pages' entries equals
/// the unpaginated full listing.
pub proof fn lemma_pagination_termination<T>(pages: Seq<(Seq<T>, bool)>, full: Seq<T>)
    requires
        is_pagination(pages, full),
    ensures
        collect_following(pages, 0) == full,
{
    lemma_collect_following(pages, 0);
}

} // verus!

use crate::xml::{xml_unescaped, amp_entity, lt_entity, gt_entity, apos_entity};

verus! {

/// The codec is coherent: text content written by the serializer reads back
/// unchanged through the entity decoder, for every text. (The
/// quote-restoring correction is a separate, transmission-side step; its
/// round trip is `lemma_escape_fixup_roundtrip`.)
pub proof fn lemma_escape_unescape_roundtrip(s: Seq<char>)
    ensures
        xml_unescaped(xml_escaped(s)) == s,
    decreases s.len(),
{
    if s.len() > 0 {
        let c = s[0];
        let t = s.drop_first();
        lemma_escape_unescape_roundtrip(t);
        let e = xml_escaped(s);
        assert(e == esc_char(c) + xml_escaped(t));
        if c == '&' {
            assert(e.subrange(0, 5) =~= amp_entity());
            assert(e.skip(5) =~= xml_escaped(t));
            assert(seq!['&'] + t =~= s);
        } else if c == '<' {
            assert(e[0] == '&' && e[1] == 'l');
            if e.len() >= 5 && e.subrange(0, 5) == amp_entity() {
                assert(e.subrange(0, 5)[1] == 'a');
                assert(false);
            }
            assert(e.subrange(0, 4) =~= lt_entity());
            assert(e.skip(4) =~= xml_escaped(t));
            assert(seq!['<'] + t =~= s);
        } else if c == '>' {
            assert(e[0] == '&' && e[1] == 'g');
            if e.len() >= 5 && e.subrange(0, 5) == amp_entity() {
                assert(e.subrange(0, 5)[1] == 'a');
                assert(false);
            }
            if e.len() >= 4 && e.subrange(0, 4) == lt_entity() {
                assert(e.subrange(0, 4)[1] == 'l');
                assert(false);
            }
            assert(e.subrange(0, 4) =~= gt_entity());
            assert(e.skip(4) =~= xml_escaped(t));
            assert(seq!['>'] + t =~= s);
        } else if c == '"' {
            assert(e[0] == '&' && e[1] == 'q');
            if e.len() >= 5 && e.subrange(0, 5) == amp_entity() {
                assert(e.subrange(0, 5)[1] == 'a');
                assert(false);
            }
            if e.len() >= 4 && e.subrange(0, 4) == lt_entity() {
                assert(e.subrange(0, 4)[1] == 'l');
                assert(false);
            }
            if e.len() >= 4 && e.subrange(0, 4) == gt_entity() {
                assert(e.subrange(0, 4)[1] == 'g');
                assert(false);
            }
            assert(e.subrange(0, 6) =~= quot_entity());
            assert(e.skip(6) =~= xml_escaped(t));
            assert(seq!['"'] + t =~= s);
        } else if c == '\'' {
            assert(e[0] == '&' && e[1] == 'a' && e[2] == 'p');
            if e.len() >= 5 && e.subrange(0, 5) == amp_entity() {
                assert(e.subrange(0, 5)[2] == 'm');
                assert(false);
            }
            if e.len() >= 4 && e.subrange(0, 4) == lt_entity() {
                assert(e.subrange(0, 4)[1] == 'l');
                assert(false);
            }
            if e.len() >= 4 && e.subrange(0, 4) == gt_entity() {
                assert(e.subrange(0, 4)[1] == 'g');
                assert(false);
            }
            if e.len() >= 6 && e.subrange(0, 6) == quot_entity() {
                assert(e.subrange(0, 6)[1] == 'q');
                assert(false);
            }
            assert(e.subrange(0, 6) =~= apos_entity());
            assert(e.skip(6) =~= xml_escaped(t));
            assert(seq!['\''] + t =~= s);
        } else {
            assert(esc_char(c) == seq![c]);
            assert(e[0] == c);
            if e.len() >= 5 && e.subrange(0, 5) == amp_entity() {
                assert(e.subrange(0, 5)[0] == '&');
                assert(false);
            }
            if e.len() >= 4 && e.subrange(0, 4) == lt_entity() {
                assert(e.subrange(0, 4)[0] == '&');
                assert(false);
            }
            if e.len() >= 4 && e.subrange(0, 4) == gt_entity() {
                assert(e.subrange(0, 4)[0] == '&');
                assert(false);
            }
            if e.len() >= 6 && e.subrange(0, 6) == quot_entity() {
                assert(e.subrange(0, 6)[0] == '&');
                assert(false);
            }
            if e.len() >= 6 && e.subrange(0, 6) == apos_entity() {
                assert(e.subrange(0, 6)[0] == '&');
                assert(false);
            }
            assert(e.skip(1) =~= xml_escaped(t));
            assert(seq![c] + t =~= s);
        }
    }
}

} // verus!
