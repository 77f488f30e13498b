use vstd::prelude::*;

verus! {

/// Time window of a subreddit sort.
#[derive(Clone, Copy, PartialEq, Eq, Debug)]
pub enum SortTime {
    /// Hour
    Hour,
    /// Day
    Day,
    /// Week
    Week,
    /// Month
    Month,
    /// Year
    Year,
    /// All time
    All,
}

/// Sort order of a subreddit listing.
#[derive(Clone, Copy, PartialEq, Eq, Debug)]
pub enum Sort {
    /// Hot
    Hot,
    /// New
    New,
    /// Rising
    Rising,
    /// Top within the given window
    Top(SortTime),
    /// Most controversial within the given window
    Controversial(SortTime),
}

/// The text of a query pair of string slices.
pub open spec fn str_pair_view(p: (&str, &str)) -> (Seq<char>, Seq<char>) {
    (p.0@, p.1@)
}

/// The texts of a sequence of query pairs of string slices.
pub open spec fn str_pairs_view(s: Seq<(&str, &str)>) -> Seq<(Seq<char>, Seq<char>)> {
    s.map_values(|p: (&str, &str)| str_pair_view(p))
}

impl SortTime {
    /// The value of the `t` query parameter for this window.
    pub open spec fn spec_name(self) -> Seq<char> {
        match self {
            SortTime::Hour => "hour"@,
            SortTime::Day => "day"@,
            SortTime::Week => "week"@,
            SortTime::Month => "month"@,
            SortTime::Year => "year"@,
            SortTime::All => "all"@,
        }
    }

    /// Converts the window to its query pair `("t", name)`.
    pub fn param<'a>(self) -> (r: (&'a str, &'a str))
        ensures
            r.0@ == "t"@,
            r.1@ == self.spec_name(),
    {
        (
            "t",
            match self {
                SortTime::Hour => "hour",
                SortTime::Day => "day",
                SortTime::Week => "week",
                SortTime::Month => "month",
                SortTime::Year => "year",
                SortTime::All => "all",
            },
        )
    }
}

impl Sort {
    /// The query pairs of this sort order.
    pub open spec fn spec_params(self) -> Seq<(Seq<char>, Seq<char>)> {
        match self {
            Sort::Hot => seq![("sort"@, "hot"@)],
            Sort::New => seq![("sort"@, "new"@)],
            Sort::Rising => seq![("sort"@, "rising"@)],
            Sort::Top(t) => seq![("sort"@, "top"@), ("t"@, t.spec_name())],
            Sort::Controversial(t) => seq![("sort"@, "controversial"@), ("t"@, t.spec_name())],
        }
    }

    /// Converts the sort order to URL query pairs.
    pub fn param<'a>(self) -> (r: Vec<(&'a str, &'a str)>)
        ensures
            str_pairs_view(r@) == self.spec_params(),
    {
        let r = match self {
            Sort::Hot => vec![("sort", "hot")],
            Sort::New => vec![("sort", "new")],
            Sort::Rising => vec![("sort", "rising")],
            Sort::Top(t) => vec![("sort", "top"), t.param()],
            Sort::Controversial(t) => vec![("sort", "controversial"), t.param()],
        };
        assert(str_pairs_view(r@) =~= self.spec_params());
        r
    }
}

} // verus!
