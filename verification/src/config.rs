//! The configuration of one run.

use vstd::prelude::*;

verus! {

/// What one run works with. Nothing in it changes during the run.
#[derive(Clone, Debug, PartialEq, Eq)]
pub struct Config {
    /// The feeds to poll, in order; one may occur twice.
    pub urls: Vec<String>,
    /// The executable to start for each selected item, if any.
    pub cmd: Option<String>,
    /// The argument templates of the command.
    pub args: Option<Vec<String>>,
    /// Substrings to look for in titles, ignoring case; absent: every title
    /// will do.
    pub keywords: Option<Vec<String>>,
    /// The cutoff, in seconds since the Unix epoch: an item published at or
    /// before it is left out.
    pub timestamp: i64,
}

/// The mathematical content of a [`Config`].
pub struct ConfigView {
    pub urls: Seq<Seq<char>>,
    pub cmd: Option<Seq<char>>,
    pub args: Option<Seq<Seq<char>>>,
    pub keywords: Option<Seq<Seq<char>>>,
    pub timestamp: i64,
}

impl View for Config {
    type V = ConfigView;

    open spec fn view(&self) -> ConfigView {
        ConfigView {
            urls: self.urls.deep_view(),
            cmd: self.cmd.deep_view(),
            args: self.args.deep_view(),
            keywords: self.keywords.deep_view(),
            timestamp: self.timestamp,
        }
    }
}

} // verus!
