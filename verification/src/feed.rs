//! Feed documents: the items of a parsed RSS channel, and the outcome of
//! fetching one feed.

use vstd::prelude::*;
use crate::nesting::{nesting, nesting_within_limit, MAX_NESTING};

verus! {

/// One entry of a feed, as far as it is used here.
#[derive(Clone, Debug, PartialEq, Eq)]
pub struct FeedItem {
    pub title: Option<String>,
    pub link: Option<String>,
    pub pub_date: Option<String>,
}

/// The mathematical content of a [`FeedItem`].
pub struct ItemView {
    pub title: Option<Seq<char>>,
    pub link: Option<Seq<char>>,
    pub pub_date: Option<Seq<char>>,
}

impl View for FeedItem {
    type V = ItemView;

    open spec fn view(&self) -> ItemView {
        ItemView {
            title: self.title.deep_view(),
            link: self.link.deep_view(),
            pub_date: self.pub_date.deep_view(),
        }
    }
}

/// The views of the items of `items`, in order.
pub open spec fn items_view(items: Seq<FeedItem>) -> Seq<ItemView> {
    Seq::new(items.len(), |i: int| items[i]@)
}

/// The outcome of fetching and parsing one feed.
#[derive(Clone, Debug, PartialEq, Eq)]
pub enum FetchResult {
    /// The items of the channel, in document order.
    Channel(Vec<FeedItem>),
    /// The feed could not be fetched or parsed; the message says why.
    Error(String),
}

/// The mathematical content of a [`FetchResult`].
pub enum FetchView {
    Channel(Seq<ItemView>),
    Error(Seq<char>),
}

impl View for FetchResult {
    type V = FetchView;

    open spec fn view(&self) -> FetchView {
        match self {
            FetchResult::Channel(items) => FetchView::Channel(items_view(items@)),
            FetchResult::Error(message) => FetchView::Error(message@),
        }
    }
}

/// The views of the fetch results `results`, in order.
pub open spec fn results_view(results: Seq<FetchResult>) -> Seq<FetchView> {
    Seq::new(results.len(), |i: int| results[i]@)
}

/// The items, in document order, of the channel that `rss::Channel::read_from`
/// reads from the bytes `body`, each with its title, link and publish date;
/// `None` where it rejects them.
pub uninterp spec fn rss_items(body: Seq<u8>) -> Option<Seq<ItemView>>;

/// The text that the error of `rss::Channel::read_from` on the bytes `body`
/// prints as, where it rejects them.
pub uninterp spec fn rss_failure(body: Seq<u8>) -> Seq<char>;

/// Trusted: calls `rss::Channel::read_from` on the bytes. On success it
/// copies `title()`, `link()` and `pub_date()` of each of `items()`, in
/// order; on failure it takes the text that the error prints as. The outcome
/// is taken to depend on the bytes alone: it is `Ok` with exactly the items
/// that `rss_items` names, and `Err` with the text that `rss_failure` names
/// where `rss_items` is `None`. Which documents are accepted is not stated.
///
/// The parser calls itself once for each element that stands open inside an
/// element of another namespace, so a body is handed over only where
/// [`nesting`] finds its elements nested no deeper than [`MAX_NESTING`].
/// That rests on how the parser divides the bytes:
/// - character data ends at `<`; the byte after it tells a declaration
///   (`!`), an end tag (`/`), a processing instruction (`?`) and a start tag
///   (any other) apart;
/// - a tag ends at the first `>` outside quotes, and stands for an empty
///   element where `/` comes just before that `>`;
/// - a processing instruction ends at the first `?>`;
/// - a comment ends at the first `>` that follows `--` and stands five bytes
///   or more after `<!`; a CDATA section at the first `]]>`;
/// - a document type declaration ends at the first `>` outside quotes, or,
///   where `[` outside quotes opens an internal subset, at the first `>`
///   after the `]` that ends the subset;
/// - in the subset, `<?` runs to the next `?>`, `<!--` to the next `-->`,
///   `<!ENTITY`, `<!ATTLIST` and `<!NOTATION` to the first `>` outside
///   quotes, and any other `<` to the first `>`.
#[verifier::external_body]
pub(crate) fn read_channel(body: &[u8]) -> (r: Result<Vec<FeedItem>, String>)
    requires
        nesting(body@) <= MAX_NESTING,
    ensures
        match r {
            Ok(items) => rss_items(body@) == Some(items_view(items@)),
            Err(message) => rss_items(body@) is None && message@ == rss_failure(body@),
        },
{
    match rss::Channel::read_from(body) {
        Ok(channel) => Ok(
            channel.items().iter().map(
                |item| FeedItem {
                    title: item.title().map(String::from),
                    link: item.link().map(String::from),
                    pub_date: item.pub_date().map(String::from),
                },
            ).collect(),
        ),
        Err(e) => Err(e.to_string()),
    }
}

/// What parsing the body of a fetched feed gives: the items of the channel;
/// or, for a body that is no RSS document, the parser's message; or, for a
/// body nested deeper than [`MAX_NESTING`], which is never parsed, a message
/// that says so.
pub open spec fn feed_outcome(body: Seq<u8>) -> FetchView {
    if nesting(body) > MAX_NESTING {
        FetchView::Error("the document is nested too deeply"@)
    } else {
        match rss_items(body) {
            Some(items) => FetchView::Channel(items),
            None => FetchView::Error(rss_failure(body)),
        }
    }
}

/// Parses the body of a fetched feed. A body that is not an RSS document, or
/// is nested too deeply to be parsed, gives an `Error` with a message, never
/// a failure of the caller.
pub fn parse_feed(body: &[u8]) -> (r: FetchResult)
    ensures
        r@ == feed_outcome(body@),
{
    if !nesting_within_limit(body) {
        return FetchResult::Error("the document is nested too deeply".to_owned());
    }
    match read_channel(body) {
        Ok(items) => FetchResult::Channel(items),
        Err(message) => FetchResult::Error(message),
    }
}

} // verus!
