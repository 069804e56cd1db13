//! The closed enumeration classifying a piece of content, with its wire
//! (database enum) string representation.

use vstd::prelude::*;
use crate::text::str_eq;

verus! {

/// The kind of an ingested piece of content. Exactly these five values are
/// persistable; any other wire string is rejected at validation.
#[derive(Clone, Copy, PartialEq, Eq, Structural, Debug)]
pub enum ContentType {
    WebArticle,
    YoutubeVideo,
    Publication,
    Bookmark,
    Unknown,
}

impl ContentType {
    /// The wire string a value is stored and transmitted as.
    pub open spec fn wire_view(self) -> Seq<char> {
        match self {
            ContentType::WebArticle => "web_article"@,
            ContentType::YoutubeVideo => "youtube_video"@,
            ContentType::Publication => "publication"@,
            ContentType::Bookmark => "bookmark"@,
            ContentType::Unknown => "unknown"@,
        }
    }

    /// Which value, if any, a wire string denotes.
    pub open spec fn spec_parse(s: Seq<char>) -> Option<ContentType> {
        if s == "web_article"@ {
            Some(ContentType::WebArticle)
        } else if s == "youtube_video"@ {
            Some(ContentType::YoutubeVideo)
        } else if s == "publication"@ {
            Some(ContentType::Publication)
        } else if s == "bookmark"@ {
            Some(ContentType::Bookmark)
        } else if s == "unknown"@ {
            Some(ContentType::Unknown)
        } else {
            None
        }
    }

    /// The wire string of this value.
    pub fn wire_str(self) -> (r: &'static str)
        ensures
            r@ == self.wire_view(),
    {
        match self {
            ContentType::WebArticle => "web_article",
            ContentType::YoutubeVideo => "youtube_video",
            ContentType::Publication => "publication",
            ContentType::Bookmark => "bookmark",
            ContentType::Unknown => "unknown",
        }
    }

    /// Parses a wire string; returns `None` for any string outside the
    /// closed five-value set.
    pub fn parse(s: &str) -> (r: Option<ContentType>)
        ensures
            r == Self::spec_parse(s@),
    {
        if str_eq(s, "web_article") {
            Some(ContentType::WebArticle)
        } else if str_eq(s, "youtube_video") {
            Some(ContentType::YoutubeVideo)
        } else if str_eq(s, "publication") {
            Some(ContentType::Publication)
        } else if str_eq(s, "bookmark") {
            Some(ContentType::Bookmark)
        } else if str_eq(s, "unknown") {
            Some(ContentType::Unknown)
        } else {
            None
        }
    }
}

/// Every value's wire string parses back to that value: the five wire
/// strings are pairwise distinct and the representation round-trips.
pub proof fn lemma_wire_round_trip(ct: ContentType)
    ensures
        ContentType::spec_parse(ct.wire_view()) == Some(ct),
{
    reveal_strlit("web_article");
    reveal_strlit("youtube_video");
    reveal_strlit("publication");
    reveal_strlit("bookmark");
    reveal_strlit("unknown");
    match ct {
        ContentType::WebArticle => {
            assert(ContentType::spec_parse(ct.wire_view()) == Some(ct));
        },
        ContentType::YoutubeVideo => {
            assert("youtube_video"@ != "web_article"@) by {
                assert("youtube_video"@[0] != "web_article"@[0]);
            }
            assert(ContentType::spec_parse(ct.wire_view()) == Some(ct));
        },
        ContentType::Publication => {
            assert("publication"@ != "web_article"@) by {
                assert("publication"@[0] != "web_article"@[0]);
            }
            assert("publication"@ != "youtube_video"@) by {
                assert("publication"@[0] != "youtube_video"@[0]);
            }
            assert(ContentType::spec_parse(ct.wire_view()) == Some(ct));
        },
        ContentType::Bookmark => {
            assert("bookmark"@ != "web_article"@) by {
                assert("bookmark"@[0] != "web_article"@[0]);
            }
            assert("bookmark"@ != "youtube_video"@) by {
                assert("bookmark"@[0] != "youtube_video"@[0]);
            }
            assert("bookmark"@ != "publication"@) by {
                assert("bookmark"@[0] != "publication"@[0]);
            }
            assert(ContentType::spec_parse(ct.wire_view()) == Some(ct));
        },
        ContentType::Unknown => {
            assert("unknown"@ != "web_article"@) by {
                assert("unknown"@[0] != "web_article"@[0]);
            }
            assert("unknown"@ != "youtube_video"@) by {
                assert("unknown"@[0] != "youtube_video"@[0]);
            }
            assert("unknown"@ != "publication"@) by {
                assert("unknown"@[0] != "publication"@[0]);
            }
            assert("unknown"@ != "bookmark"@) by {
                assert("unknown"@[0] != "bookmark"@[0]);
            }
            assert(ContentType::spec_parse(ct.wire_view()) == Some(ct));
        },
    }
}

} // verus!
