//! The two predicates that select items: published after the cutoff, and a
//! keyword in the title.

use vstd::prelude::*;
use crate::feed::FeedItem;
use crate::pubdate::{is_after, pub_date_of, read_pub_date, rfc2822_epoch, PubDate};
use crate::text::{
    contains,
    is_substring,
    is_substring_ignoring_case,
    lowercase_of,
    to_lowercase,
};

verus! {

/// Why an item could not be judged. Each of these ends the whole run.
#[derive(Clone, Copy, Debug, PartialEq, Eq, Structural)]
pub enum FilterError {
    /// The item has no publish date.
    MissingPubDate,
    /// The item's publish date is not an RFC 2822 date-time.
    InvalidPubDate,
    /// Keywords are configured and the item has no title.
    MissingTitle,
}

/// The date predicate on a publish date that has been read: an item passes
/// exactly when it was published strictly after `cutoff`.
pub open spec fn date_verdict(date: PubDate, cutoff: i64) -> Result<bool, FilterError> {
    match date {
        PubDate::Missing => Err(FilterError::MissingPubDate),
        PubDate::Unparsable => Err(FilterError::InvalidPubDate),
        PubDate::At(epoch) => Ok(epoch > cutoff),
    }
}

/// Some keyword of `keywords` is a part of the title, ignoring case.
pub open spec fn keyword_match(title: Seq<char>, keywords: Seq<Seq<char>>) -> bool {
    exists|k: int|
        0 <= k < keywords.len() && is_substring_ignoring_case(#[trigger] keywords[k], title)
}

/// The keyword predicate: without a keyword list every item passes; with
/// one, an item needs a title, and passes exactly when a keyword matches it.
pub open spec fn keyword_verdict(
    title: Option<Seq<char>>,
    keywords: Option<Seq<Seq<char>>>,
) -> Result<bool, FilterError> {
    match keywords {
        None => Ok(true),
        Some(ks) => match title {
            None => Err(FilterError::MissingTitle),
            Some(t) => Ok(keyword_match(t, ks)),
        },
    }
}

/// Some string of `needles` is a part of `hay`, both taken as they are.
pub open spec fn any_substring(needles: Seq<Seq<char>>, hay: Seq<char>) -> bool {
    exists|k: int| 0 <= k < needles.len() && is_substring(#[trigger] needles[k], hay)
}

/// An item whose publish date reads as the instant `epoch` passes the date
/// predicate exactly when `epoch` is greater than the cutoff; an item
/// published at the cutoff itself does not pass.
pub proof fn lemma_date_filter_is_strict(date: Seq<char>, epoch: i64, cutoff: i64)
    requires
        rfc2822_epoch(date) == Some(epoch),
    ensures
        date_verdict(pub_date_of(Some(date)), cutoff) == Ok::<bool, FilterError>(epoch > cutoff),
        epoch == cutoff ==> date_verdict(pub_date_of(Some(date)), cutoff) == Ok::<
            bool,
            FilterError,
        >(false),
{
}

/// With a keyword list, an item with a title passes the keyword predicate
/// exactly when some keyword, in lower case, is a part of the title in lower
/// case; without one, every item passes, whatever its title.
pub proof fn lemma_keyword_filter(title: Seq<char>, keywords: Seq<Seq<char>>)
    ensures
        keyword_verdict(Some(title), Some(keywords)) == Ok::<bool, FilterError>(
            exists|k: int|
                0 <= k < keywords.len() && is_substring(
                    lowercase_of(#[trigger] keywords[k]),
                    lowercase_of(title),
                ),
        ),
        keyword_verdict(Some(title), None) == Ok::<bool, FilterError>(true),
        keyword_verdict(None, None) == Ok::<bool, FilterError>(true),
{
}

/// The date predicate on a publish date that has been read.
pub fn date_filter(date: PubDate, cutoff: i64) -> (r: Result<bool, FilterError>)
    ensures
        r == date_verdict(date, cutoff),
{
    match date {
        PubDate::Missing => Err(FilterError::MissingPubDate),
        PubDate::Unparsable => Err(FilterError::InvalidPubDate),
        PubDate::At(epoch) => Ok(is_after(epoch, cutoff)),
    }
}

/// The date predicate on an item: its publish date is read as RFC 2822 and
/// compared with `cutoff`, an exclusive lower bound.
pub fn passes_date_filter(item: &FeedItem, cutoff: i64) -> (r: Result<bool, FilterError>)
    ensures
        r == date_verdict(pub_date_of(item@.pub_date), cutoff),
{
    date_filter(read_pub_date(&item.pub_date), cutoff)
}

/// Whether some string of `needles` is a part of `hay`. Case is not touched
/// here: the caller hands over what it wants compared.
pub fn contains_any(hay: &str, needles: &Vec<String>) -> (b: bool)
    ensures
        b == any_substring(needles.deep_view(), hay@),
{
    let mut k: usize = 0;
    while k < needles.len()
        invariant
            k <= needles.len(),
            forall|j: int| 0 <= j < k ==> !is_substring(#[trigger] needles.deep_view()[j], hay@),
        decreases needles.len() - k,
    {
        assert(needles.deep_view()[k as int] == needles@[k as int]@);
        if contains(hay, needles[k].as_str()) {
            return true;
        }
        k += 1;
    }
    false
}

/// The strings of `words`, each put in lower case.
pub fn lowercase_each(words: &Vec<String>) -> (lower: Vec<String>)
    ensures
        lower.deep_view() == words.deep_view().map_values(|w: Seq<char>| lowercase_of(w)),
{
    let mut lower: Vec<String> = Vec::new();
    let mut k: usize = 0;
    while k < words.len()
        invariant
            k <= words.len(),
            lower@.len() == k,
            forall|j: int| 0 <= j < k ==> (#[trigger] lower@[j])@ == lowercase_of(words@[j]@),
        decreases words.len() - k,
    {
        lower.push(to_lowercase(words[k].as_str()));
        k += 1;
    }
    assert(lower.deep_view() =~= words.deep_view().map_values(|w: Seq<char>| lowercase_of(w)));
    lower
}

/// The keyword predicate on an item. Keywords match as substrings of the
/// title, ignoring case.
pub fn passes_keyword_filter(item: &FeedItem, keywords: &Option<Vec<String>>) -> (r: Result<
    bool,
    FilterError,
>)
    ensures
        r == keyword_verdict(item@.title, keywords.deep_view()),
{
    match keywords {
        None => Ok(true),
        Some(ks) => match &item.title {
            None => Err(FilterError::MissingTitle),
            Some(t) => {
                let title = to_lowercase(t.as_str());
                let lower = lowercase_each(ks);
                let found = contains_any(title.as_str(), &lower);
                proof {
                    let kv = ks.deep_view();
                    let lv = lower.deep_view();
                    assert(lv.len() == kv.len());
                    assert forall|k: int| 0 <= k < kv.len() implies #[trigger] lv[k]
                        == lowercase_of(kv[k]) by {}
                    if found {
                        let k = choose|k: int|
                            0 <= k < lv.len() && is_substring(#[trigger] lv[k], title@);
                        assert(is_substring_ignoring_case(kv[k], t@));
                    }
                    if keyword_match(t@, kv) {
                        let k = choose|k: int|
                            0 <= k < kv.len() && is_substring_ignoring_case(
                                #[trigger] kv[k],
                                t@,
                            );
                        assert(is_substring(lv[k], title@));
                    }
                }
                Ok(found)
            },
        },
    }
}

} // verus!
