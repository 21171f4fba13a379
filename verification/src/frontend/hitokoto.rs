//! A quotation to start with.

use crate::text;
use crate::text::{opt_text, trim};
use crate::util;
use vstd::prelude::*;

verus! {

/// A quotation and where it comes from.
#[derive(Debug, Clone)]
pub struct Hitokoto {
    pub text: String,
    pub source: Option<String>,
}

/// The trimmed text, if it is not blank.
pub open spec fn filled(value: Option<Seq<char>>) -> Option<Seq<char>> {
    match value {
        Some(s) => if trim(s).len() > 0 {
            Some(trim(s))
        } else {
            None
        },
        None => None,
    }
}

/// Where a quotation comes from: its author, its work in book title marks, or both.
pub open spec fn source_text(from: Option<Seq<char>>, from_who: Option<Seq<char>>) -> Option<
    Seq<char>,
> {
    match (filled(from_who), filled(from)) {
        (Some(who), Some(work)) => Some(who + "《"@ + work + "》"@),
        (Some(who), None) => Some(who),
        (None, Some(work)) => Some("《"@ + work + "》"@),
        (None, None) => None,
    }
}

/// The trimmed text, if it is not blank.
pub fn non_empty(value: &Option<String>) -> (r: Option<String>)
    ensures
        opt_text(r) == filled(opt_text(*value)),
{
    match value {
        Some(s) => {
            let trimmed = text::trimmed(text::chars_of(s.as_str()).as_slice());
            if trimmed.len() > 0 {
                Some(text::string_of(trimmed.as_slice()))
            } else {
                None
            }
        },
        None => None,
    }
}

/// Where a quotation comes from.
pub fn build_source(from: &Option<String>, from_who: &Option<String>) -> (r: Option<String>)
    ensures
        opt_text(r) == source_text(opt_text(*from), opt_text(*from_who)),
{
    match (non_empty(from_who), non_empty(from)) {
        (Some(who), Some(work)) => {
            let mut out = text::glue3(who.as_str(), "《", work.as_str());
            out.append("》");
            Some(out)
        },
        (Some(who), None) => Some(who),
        (None, Some(work)) => Some(text::glue3("《", work.as_str(), "》")),
        (None, None) => None,
    }
}

/// A quotation with its texts as characters.
pub ghost struct HitokotoView {
    pub text: Seq<char>,
    pub source: Option<Seq<char>>,
}

impl View for Hitokoto {
    type V = HitokotoView;

    open spec fn view(&self) -> HitokotoView {
        HitokotoView { text: self.text@, source: opt_text(self.source) }
    }
}

/// The quotation in a reply, if its text is not blank.
pub fn quotation(hitokoto: &str, from: &Option<String>, from_who: &Option<String>) -> (r: Option<
    Hitokoto,
>)
    ensures
        r is Some <==> trim(hitokoto@).len() > 0,
        r matches Some(q) ==> q@ == (HitokotoView {
            text: trim(hitokoto@),
            source: source_text(opt_text(*from), opt_text(*from_who)),
        }),
{
    let trimmed = text::trimmed(text::chars_of(hitokoto).as_slice());
    if trimmed.len() == 0 {
        return None;
    }
    Some(
        Hitokoto {
            text: text::string_of(trimmed.as_slice()),
            source: build_source(from, from_who),
        },
    )
}

/// The quotations for when none can be fetched, with their sources.
pub const FALLBACKS: [(&'static str, &'static str); 8] = [
    ("学而不思则罔，思而不学则殆。", "孔子《论语》"),
    ("路漫漫其修远兮，吾将上下而求索。", "屈原《离骚》"),
    ("人生到处知何似，应似飞鸿踏雪泥。", "苏轼《和子由渑池怀旧》"),
    ("竹杖芒鞋轻胜马，谁怕？一蓑烟雨任平生。", "苏轼《定风波》"),
    (
        "为天地立心，为生民立命，为往圣继绝学，为万世开太平。",
        "张载",
    ),
    ("黑夜给了我黑色的眼睛，我却用它寻找光明。", "顾城《一代人》"),
    ("面朝大海，春暖花开。", "海子"),
    (
        "世界上只有一种真正的英雄主义，那就是认清生活的真相后依然热爱生活。",
        "罗曼·罗兰",
    ),
];

/// Fallback `index`.
pub open spec fn fallback(index: int) -> HitokotoView {
    HitokotoView { text: FALLBACKS@[index].0@, source: Some(FALLBACKS@[index].1@) }
}

/// Fallback `index`.
pub fn fallback_at(index: usize) -> (r: Hitokoto)
    requires
        index < FALLBACKS@.len(),
    ensures
        r@ == fallback(index as int),
{
    let (quote, source) = FALLBACKS[index];
    Hitokoto { text: quote.to_owned(), source: Some(source.to_owned()) }
}

/// One of the quotations for when none can be fetched, picked at random.
pub fn fallback_hitokoto() -> (r: Hitokoto)
    ensures
        exists|i: int| 0 <= i < FALLBACKS@.len() && r@ == #[trigger] fallback(i),
{
    let index: usize = util::random_below(8);
    let quote = fallback_at(index);
    assert(quote@ == fallback(index as int));
    quote
}

} // verus!
