//! The metadata block at the top of every page.
use vstd::prelude::*;
use crate::datetime::{UtcTimestamp, date_only_format, date_time_format};

verus! {

/// The two parts of a page's Atom `tag:` identifier.
#[derive(Clone, Debug)]
pub struct AtomIdParts {
    pub email: String,
    pub object: String,
}

/// A page's frontmatter.
#[derive(Clone, Debug)]
pub struct MyFrontmatter {
    pub atom_id_parts: Option<AtomIdParts>,
    pub title: String,
    pub date_published: Option<UtcTimestamp>,
    pub date_published_time_precision: Option<bool>,
    pub description: Option<String>,
    pub keywords: Option<Vec<String>>,
}

impl MyFrontmatter {
    /// The format in which the publication date is shown: the date alone
    /// when the page says its time is not precise, else date, time and offset.
    pub open spec fn date_format(self) -> Seq<char> {
        if self.date_published_time_precision == Some(false) {
            date_only_format()
        } else {
            date_time_format()
        }
    }

    /// Every date in the frontmatter is one that chrono can represent.
    pub open spec fn valid(self) -> bool {
        self.date_published matches Some(d) ==> d.valid()
    }

    /// The chrono format string for the publication date.
    pub fn human_date_format_placeholder(&self) -> (res: &'static str)
        ensures
            res@ == self.date_format(),
    {
        proof {
            reveal_strlit("%F %H:%M:%S%:z");
            reveal_strlit("%F");
        }
        match &self.date_published_time_precision {
            Some(p) => {
                if *p {
                    "%F %H:%M:%S%:z"
                } else {
                    "%F"
                }
            },
            None => "%F %H:%M:%S%:z",
        }
    }
}

} // verus!
