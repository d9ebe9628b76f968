use vstd::prelude::*;
use vstd::string::*;
use crate::dedup::{holds_text, string_views};
use crate::types::TextNode;

verus! {

/// The whitespace-separated words of a text.
pub uninterp spec fn words_of(s: Seq<char>) -> Seq<Seq<char>>;

/// The lowercase form of a text.
pub uninterp spec fn lower_of(s: Seq<char>) -> Seq<char>;

/// Relies on `str::split_whitespace`: the words of a text, in order, depend
/// on its characters alone.
#[verifier::external_body]
pub(crate) fn split_words(s: &str) -> (r: Vec<String>)
    ensures
        string_views(r@) == words_of(s@),
{
    s.split_whitespace().map(|w| w.to_string()).collect()
}

/// Relies on `str::to_lowercase`: the result depends on the characters
/// alone.
#[verifier::external_body]
fn lowercase(s: &str) -> (r: String)
    ensures
        r@ == lower_of(s@),
{
    s.to_lowercase()
}

/// Word `w` of text `i` is longer than three characters and lowercases to
/// `kw`.
pub open spec fn yields_keyword(texts: Seq<Seq<char>>, i: int, w: int, kw: Seq<char>) -> bool {
    &&& 0 <= i < texts.len()
    &&& 0 <= w < words_of(texts[i]).len()
    &&& words_of(texts[i])[w].len() > 3
    &&& lower_of(words_of(texts[i])[w]) == kw
}

/// Some word before word `w` of text `i` (in reading order) yields `kw`.
pub open spec fn keyword_seen(texts: Seq<Seq<char>>, i: int, w: int, kw: Seq<char>) -> bool {
    exists|a: int, b: int|
        #![trigger yields_keyword(texts, a, b, kw)]
        (a < i || (a == i && b < w)) && yields_keyword(texts, a, b, kw)
}

/// `kw` is a keyword of the corpus `texts`.
pub open spec fn is_keyword_of(texts: Seq<Seq<char>>, kw: Seq<char>) -> bool {
    exists|a: int, b: int| #![trigger yields_keyword(texts, a, b, kw)] yields_keyword(texts, a, b, kw)
}

/// The texts of the nodes.
pub open spec fn node_texts(nodes: Seq<TextNode>) -> Seq<Seq<char>> {
    nodes.map_values(|n: TextNode| n.text@)
}

/// The distinct lowercased words longer than three characters of all the
/// nodes' texts.
pub fn extract_keywords(texts: &[TextNode]) -> (r: Vec<String>)
    ensures
        forall|p: int, q: int|
            0 <= p < q < r.len() ==> (#[trigger] r@[p])@ != (#[trigger] r@[q])@,
        forall|kw: Seq<char>|
            #[trigger] string_views(r@).contains(kw) <==> is_keyword_of(node_texts(texts@), kw),
{
    let ghost tv = node_texts(texts@);
    let mut kws: Vec<String> = Vec::new();
    let mut i: usize = 0;
    while i < texts.len()
        invariant
            tv == node_texts(texts@),
            i <= texts.len(),
            forall|p: int, q: int|
                0 <= p < q < kws.len() ==> (#[trigger] kws@[p])@ != (#[trigger] kws@[q])@,
            forall|kw: Seq<char>|
                #[trigger] string_views(kws@).contains(kw) <==> keyword_seen(tv, i as int, 0, kw),
        decreases texts.len() - i,
    {
        let words = split_words(texts[i].text.as_str());
        assert(tv[i as int] == texts@[i as int].text@);
        let mut w: usize = 0;
        while w < words.len()
            invariant
                tv == node_texts(texts@),
                i < texts.len(),
                w <= words.len(),
                string_views(words@) == words_of(tv[i as int]),
                forall|p: int, q: int|
                    0 <= p < q < kws.len() ==> (#[trigger] kws@[p])@ != (#[trigger] kws@[q])@,
                forall|kw: Seq<char>|
                    #[trigger] string_views(kws@).contains(kw) <==> keyword_seen(
                        tv,
                        i as int,
                        w as int,
                        kw,
                    ),
            decreases words.len() - w,
        {
            assert(string_views(words@)[w as int] == words@[w as int]@);
            let ghost before = kws@;
            if words[w].as_str().unicode_len() > 3 {
                let lw = lowercase(words[w].as_str());
                assert(yields_keyword(tv, i as int, w as int, lw@));
                if !holds_text(&kws, &lw) {
                    kws.push(lw);
                    proof {
                        assert forall|p: int, q: int|
                            0 <= p < q < kws.len() implies (#[trigger] kws@[p])@ != (
                            #[trigger] kws@[q])@ by {
                            if q == kws.len() - 1 {
                                assert(string_views(before)[p] == kws@[p]@);
                            }
                        }
                    }
                }
                proof {
                    assert forall|kw: Seq<char>|
                        #[trigger] string_views(kws@).contains(kw) <==> keyword_seen(
                            tv,
                            i as int,
                            w + 1,
                            kw,
                        ) by {
                        if string_views(kws@).contains(kw) && kw != lw@ {
                            let p = choose|p: int|
                                0 <= p < kws@.len() && string_views(kws@)[p] == kw;
                            assert(kws@[p]@ == kw);
                            assert(p < before.len());
                            assert(before[p] == kws@[p]);
                            assert(string_views(before)[p] == kw);
                            assert(string_views(before).contains(kw));
                            assert(keyword_seen(tv, i as int, w as int, kw));
                            let (a, b) = choose|a: int, b: int|
                                (a < i || (a == i && b < w)) && yields_keyword(tv, a, b, kw);
                            assert(keyword_seen(tv, i as int, w + 1, kw));
                        }
                        if kw == lw@ {
                            assert(yields_keyword(tv, i as int, w as int, kw));
                            assert(keyword_seen(tv, i as int, w + 1, kw));
                            assert(string_views(kws@).contains(kw)) by {
                                if !string_views(before).contains(kw) {
                                    assert(string_views(kws@)[kws@.len() - 1] == kw);
                                } else {
                                    let p = choose|p: int|
                                        0 <= p < before.len() && string_views(before)[p] == kw;
                                    assert(string_views(kws@)[p] == kw);
                                }
                            }
                        }
                        if keyword_seen(tv, i as int, w + 1, kw) && kw != lw@ {
                            let (a, b) = choose|a: int, b: int|
                                (a < i || (a == i && b < w + 1)) && yields_keyword(tv, a, b, kw);
                            assert(keyword_seen(tv, i as int, w as int, kw));
                            assert(string_views(before).contains(kw));
                            let p = choose|p: int|
                                0 <= p < before.len() && string_views(before)[p] == kw;
                            assert(string_views(kws@)[p] == kw);
                        }
                    }
                }
            } else {
                proof {
                    assert forall|kw: Seq<char>|
                        #[trigger] string_views(kws@).contains(kw) <==> keyword_seen(
                            tv,
                            i as int,
                            w + 1,
                            kw,
                        ) by {
                        if keyword_seen(tv, i as int, w + 1, kw) {
                            let (a, b) = choose|a: int, b: int|
                                (a < i || (a == i && b < w + 1)) && yields_keyword(tv, a, b, kw);
                            assert(keyword_seen(tv, i as int, w as int, kw));
                        }
                    }
                }
            }
            w = w + 1;
        }
        proof {
            assert forall|kw: Seq<char>|
                #[trigger] string_views(kws@).contains(kw) <==> keyword_seen(
                    tv,
                    i + 1,
                    0,
                    kw,
                ) by {
                if keyword_seen(tv, i + 1, 0, kw) {
                    let (a, b) = choose|a: int, b: int|
                        (a < i + 1 || (a == i + 1 && b < 0)) && yields_keyword(tv, a, b, kw);
                    assert(keyword_seen(tv, i as int, w as int, kw));
                }
                if keyword_seen(tv, i as int, w as int, kw) {
                    let (a, b) = choose|a: int, b: int|
                        (a < i || (a == i && b < w)) && yields_keyword(tv, a, b, kw);
                    assert(keyword_seen(tv, i + 1, 0, kw));
                }
            }
        }
        i = i + 1;
    }
    proof {
        assert forall|kw: Seq<char>|
            #[trigger] string_views(kws@).contains(kw) <==> is_keyword_of(tv, kw) by {
            if is_keyword_of(tv, kw) {
                let (a, b) = choose|a: int, b: int| yields_keyword(tv, a, b, kw);
                assert(keyword_seen(tv, i as int, 0, kw));
            }
            if keyword_seen(tv, i as int, 0, kw) {
                let (a, b) = choose|a: int, b: int|
                    (a < i || (a == i && b < 0)) && yields_keyword(tv, a, b, kw);
                assert(is_keyword_of(tv, kw));
            }
        }
    }
    kws
}

} // verus!
