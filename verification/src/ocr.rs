//! The language list handed to the system OCR engines.

use vstd::prelude::*;
use crate::text::{
    is_space, lemma_trim_ends,
    chars_eq, chars_of, lemma_split_on_nonempty, split_chars, split_on, string_from_chars, trim,
    trim_chars, views,
};

verus! {

/// The views of a sequence of strings.
pub open spec fn str_views(s: Seq<String>) -> Seq<Seq<char>> {
    s.map_values(|x: String| x@)
}

/// The trimmed pieces that are not blank, in order.
pub open spec fn non_blank_trimmed(pieces: Seq<Seq<char>>) -> Seq<Seq<char>>
    decreases pieces.len(),
{
    if pieces.len() == 0 {
        Seq::empty()
    } else {
        let rest = non_blank_trimmed(pieces.drop_last());
        if trim(pieces.last()).len() > 0 {
            rest.push(trim(pieces.last()))
        } else {
            rest
        }
    }
}

/// The languages of a comma-separated list: each entry trimmed, blank ones skipped.
pub open spec fn language_list(langs: Seq<char>) -> Seq<Seq<char>> {
    non_blank_trimmed(split_on(langs, ','))
}

/// Splits a comma-separated language list (`zh-Hans,en-US`) into its entries.
pub fn recognition_languages(langs: &str) -> (r: Vec<String>)
    ensures
        str_views(r@) == language_list(langs@),
{
    let v = chars_of(langs);
    let pieces = split_chars(v.as_slice(), ',');
    let mut out: Vec<String> = Vec::new();
    let mut i: usize = 0;
    assert(views(pieces@).take(0) =~= Seq::<Seq<char>>::empty());
    assert(str_views(out@) =~= non_blank_trimmed(views(pieces@).take(0)));
    while i < pieces.len()
        invariant
            i <= pieces.len(),
            views(pieces@) == split_on(v@, ','),
            v@ == langs@,
            str_views(out@) == non_blank_trimmed(views(pieces@).take(i as int)),
        decreases pieces.len() - i,
    {
        let t = trim_chars(pieces[i].as_slice());
        let ghost prev = views(pieces@).take(i as int);
        let ghost next = views(pieces@).take(i + 1);
        assert(next.drop_last() =~= prev);
        assert(next.last() == pieces@[i as int]@);
        if t.len() > 0 {
            out.push(string_from_chars(t.as_slice()));
            assert(str_views(out@) =~= non_blank_trimmed(next));
        } else {
            assert(str_views(out@) =~= non_blank_trimmed(next));
        }
        i = i + 1;
    }
    assert(views(pieces@).take(pieces.len() as int) =~= views(pieces@));
    out
}

/// Every entry of a language list is the trimmed text of one comma-separated
/// piece: not empty, and neither starting nor ending with white space.
proof fn lemma_non_blank_trimmed(pieces: Seq<Seq<char>>)
    ensures
        forall|i: int|
            0 <= i < non_blank_trimmed(pieces).len() ==> {
                let e = #[trigger] non_blank_trimmed(pieces)[i];
                &&& e.len() > 0
                &&& !is_space(e[0])
                &&& !is_space(e.last())
            },
    decreases pieces.len(),
{
    if pieces.len() > 0 {
        lemma_non_blank_trimmed(pieces.drop_last());
        lemma_trim_ends(pieces.last());
        let rest = non_blank_trimmed(pieces.drop_last());
        let all = non_blank_trimmed(pieces);
        assert forall|i: int| 0 <= i < all.len() implies {
            let e = #[trigger] all[i];
            &&& e.len() > 0
            &&& !is_space(e[0])
            &&& !is_space(e.last())
        } by {
            if i < rest.len() {
                assert(all[i] == rest[i]);
            } else {
                assert(all[i] == trim(pieces.last()));
            }
        }
    }
}

/// The Windows OCR language tag for a configured language: Simplified
/// Chinese needs its region, every other tag is used as given.
pub open spec fn engine_tag(tag: Seq<char>) -> Seq<char> {
    if tag == "zh-Hans"@ {
        "zh-Hans-CN"@
    } else {
        tag
    }
}

/// The tags the Windows engine is tried with are the configured languages,
/// one for one and in order, each non-blank and trimmed: `zh-Hans` becomes
/// `zh-Hans-CN`, and every other tag (`zh-Hant` and `zh-TW` among them) is
/// handed on unchanged.
pub proof fn law_engine_tags_change_only_simplified_chinese(langs: Seq<char>)
    ensures
        ({
            let l = language_list(langs);
            let t = l.map_values(|x: Seq<char>| engine_tag(x));
            &&& t.len() == l.len()
            &&& forall|i: int|
                0 <= i < l.len() ==> (#[trigger] l[i] == "zh-Hans"@ ==> t[i] == "zh-Hans-CN"@)
                    && (l[i] != "zh-Hans"@ ==> t[i] == l[i])
            &&& forall|i: int|
                0 <= i < l.len() ==> (#[trigger] l[i]).len() > 0 && !is_space(l[i][0])
                    && !is_space(l[i].last())
        }),
{
    lemma_non_blank_trimmed(split_on(langs, ','));
}

/// The tags the Windows engine is tried with, in order.
pub fn engine_language_tags(langs: &str) -> (r: Vec<String>)
    ensures
        str_views(r@) == language_list(langs@).map_values(|t: Seq<char>| engine_tag(t)),
{
    let ls = recognition_languages(langs);
    let zh = chars_of("zh-Hans");
    let mut out: Vec<String> = Vec::new();
    let mut i: usize = 0;
    while i < ls.len()
        invariant
            i <= ls.len(),
            zh@ == "zh-Hans"@,
            str_views(ls@) == language_list(langs@),
            str_views(out@) == str_views(ls@).take(i as int).map_values(
                |t: Seq<char>| engine_tag(t),
            ),
        decreases ls.len() - i,
    {
        let c = chars_of(ls[i].as_str());
        let ghost tag = str_views(ls@)[i as int];
        assert(tag == ls@[i as int]@);
        let ghost before = out@;
        if chars_eq(c.as_slice(), zh.as_slice()) {
            let z = string_from_chars(chars_of("zh-Hans-CN").as_slice());
            assert(z@ == engine_tag(tag));
            out.push(z);
        } else {
            let z = ls[i].clone();
            assert(z@ == engine_tag(tag));
            out.push(z);
        }
        assert(str_views(out@) =~= str_views(before).push(engine_tag(tag)));
        assert(str_views(ls@).take(i + 1) =~= str_views(ls@).take(i as int).push(tag));
        i = i + 1;
        assert(str_views(out@) =~= str_views(ls@).take(i as int).map_values(
            |t: Seq<char>| engine_tag(t),
        ));
    }
    assert(str_views(ls@).take(ls.len() as int) =~= str_views(ls@));
    out
}

} // verus!
