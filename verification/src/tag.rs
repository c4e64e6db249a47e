//! The closed set of recognized HTML tag names.
//!
//! The frequency aggregator only counts elements whose tag name falls in
//! this set; anything else is observed and discarded before it reaches
//! the aggregator.

use vstd::prelude::*;

verus! {

/// How many recognized tags there are; the aggregator's counter table
/// has exactly this many slots.
pub const TAG_COUNT: usize = 10;

/// A recognized HTML element name.
#[derive(Clone, Copy, Debug, PartialEq, Eq, Structural)]
pub enum Tag {
    Div,
    Span,
    P,
    A,
    Img,
    Ul,
    Li,
    Table,
    Script,
    Button,
}

/// The slot of a tag in the counter table.
pub open spec fn spec_tag_index(t: Tag) -> int {
    match t {
        Tag::Div => 0,
        Tag::Span => 1,
        Tag::P => 2,
        Tag::A => 3,
        Tag::Img => 4,
        Tag::Ul => 5,
        Tag::Li => 6,
        Tag::Table => 7,
        Tag::Script => 8,
        Tag::Button => 9,
    }
}

/// The lowercase name of a tag, as the DOM reports it.
pub open spec fn spec_tag_name(t: Tag) -> Seq<char> {
    match t {
        Tag::Div => "div"@,
        Tag::Span => "span"@,
        Tag::P => "p"@,
        Tag::A => "a"@,
        Tag::Img => "img"@,
        Tag::Ul => "ul"@,
        Tag::Li => "li"@,
        Tag::Table => "table"@,
        Tag::Script => "script"@,
        Tag::Button => "button"@,
    }
}

/// Classification of a raw tag name: the recognized tag it denotes,
/// or `None` for everything outside the closed set.
pub open spec fn spec_tag_of(s: Seq<char>) -> Option<Tag> {
    if s == "div"@ {
        Some(Tag::Div)
    } else if s == "span"@ {
        Some(Tag::Span)
    } else if s == "p"@ {
        Some(Tag::P)
    } else if s == "a"@ {
        Some(Tag::A)
    } else if s == "img"@ {
        Some(Tag::Img)
    } else if s == "ul"@ {
        Some(Tag::Ul)
    } else if s == "li"@ {
        Some(Tag::Li)
    } else if s == "table"@ {
        Some(Tag::Table)
    } else if s == "script"@ {
        Some(Tag::Script)
    } else if s == "button"@ {
        Some(Tag::Button)
    } else {
        None
    }
}

/// Character-by-character string equality.
pub fn str_eq(a: &str, b: &str) -> (r: bool)
    ensures
        r == (a@ == b@),
{
    let la = a.unicode_len();
    let lb = b.unicode_len();
    if la != lb {
        return false;
    }
    let mut i: usize = 0;
    while i < la
        invariant
            i <= la,
            la == a@.len(),
            lb == b@.len(),
            la == lb,
            forall|j: int| 0 <= j < i ==> a@[j] == b@[j],
        decreases la - i,
    {
        if a.get_char(i) != b.get_char(i) {
            return false;
        }
        i = i + 1;
    }
    proof {
        assert(a@ =~= b@);
    }
    true
}

impl Tag {
    /// The slot of this tag in the counter table; always below `TAG_COUNT`.
    pub fn index(&self) -> (i: usize)
        ensures
            i == spec_tag_index(*self),
            i < TAG_COUNT,
    {
        match self {
            Tag::Div => 0,
            Tag::Span => 1,
            Tag::P => 2,
            Tag::A => 3,
            Tag::Img => 4,
            Tag::Ul => 5,
            Tag::Li => 6,
            Tag::Table => 7,
            Tag::Script => 8,
            Tag::Button => 9,
        }
    }

    /// The tag occupying slot `i` of the counter table, if any.
    pub fn from_index(i: usize) -> (r: Option<Tag>)
        ensures
            match r {
                Some(t) => spec_tag_index(t) == i,
                None => i >= TAG_COUNT,
            },
            i < TAG_COUNT ==> r is Some,
    {
        match i {
            0 => Some(Tag::Div),
            1 => Some(Tag::Span),
            2 => Some(Tag::P),
            3 => Some(Tag::A),
            4 => Some(Tag::Img),
            5 => Some(Tag::Ul),
            6 => Some(Tag::Li),
            7 => Some(Tag::Table),
            8 => Some(Tag::Script),
            9 => Some(Tag::Button),
            _ => None,
        }
    }

    /// Classifies a raw tag name into the closed set, or rejects it.
    pub fn from_name(name: &str) -> (r: Option<Tag>)
        ensures
            r == spec_tag_of(name@),
    {
        if str_eq(name, "div") {
            Some(Tag::Div)
        } else if str_eq(name, "span") {
            Some(Tag::Span)
        } else if str_eq(name, "p") {
            Some(Tag::P)
        } else if str_eq(name, "a") {
            Some(Tag::A)
        } else if str_eq(name, "img") {
            Some(Tag::Img)
        } else if str_eq(name, "ul") {
            Some(Tag::Ul)
        } else if str_eq(name, "li") {
            Some(Tag::Li)
        } else if str_eq(name, "table") {
            Some(Tag::Table)
        } else if str_eq(name, "script") {
            Some(Tag::Script)
        } else if str_eq(name, "button") {
            Some(Tag::Button)
        } else {
            None
        }
    }

    /// The lowercase name of this tag, for display.
    pub fn name(&self) -> (s: String)
        ensures
            s@ == spec_tag_name(*self),
    {
        match self {
            Tag::Div => String::from_str("div"),
            Tag::Span => String::from_str("span"),
            Tag::P => String::from_str("p"),
            Tag::A => String::from_str("a"),
            Tag::Img => String::from_str("img"),
            Tag::Ul => String::from_str("ul"),
            Tag::Li => String::from_str("li"),
            Tag::Table => String::from_str("table"),
            Tag::Script => String::from_str("script"),
            Tag::Button => String::from_str("button"),
        }
    }
}

/// Distinct tags occupy distinct slots of the counter table.
pub proof fn lemma_tag_index_injective(t1: Tag, t2: Tag)
    ensures
        spec_tag_index(t1) == spec_tag_index(t2) ==> t1 == t2,
{
}

} // verus!
