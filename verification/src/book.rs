//! The book tree model: an ordered sequence of items, each a numbered
//! chapter, an unnumbered affix, or a spacer. The hierarchy is encoded purely
//! by each chapter's dot-separated section path; nesting depth is the number
//! of its segments.

use vstd::prelude::*;
use vstd::string::StrSliceExecFns;

verus! {

/// A content unit: a display title and a source file path relative to the
/// book's source directory. An empty path means there is nothing to render.
#[derive(Debug, Clone, PartialEq, Eq)]
pub struct Chapter {
    pub name: String,
    pub path: String,
}

/// One node of the book's linear table of contents. A `Chapter` carries its
/// dot-separated section path (for example `"1.2.3"`); an `Affix` sits
/// outside the numbered hierarchy; a `Spacer` renders nothing.
#[derive(Debug, Clone, PartialEq, Eq)]
pub enum BookItem {
    Chapter(String, Chapter),
    Affix(Chapter),
    Spacer,
}

/// The book handed to a renderer: the item sequence plus the directories the
/// build works against, every path held as a plain string.
#[derive(Debug, Clone)]
pub struct MDBook {
    /// The book's root directory.
    pub root: String,
    /// The directory holding the chapter sources.
    pub source: String,
    /// The output root the build writes into.
    pub destination: String,
    /// The table of contents, in order.
    pub items: Vec<BookItem>,
    /// User-declared extra stylesheets, in declaration order.
    pub additional_css: Vec<String>,
    /// User-declared extra scripts, in declaration order.
    pub additional_js: Vec<String>,
}

/// The fixed set of theme assets, each a raw byte blob resolved by the
/// caller (from an override directory or built-in defaults).
#[derive(Debug, Clone)]
pub struct Theme {
    pub css: Vec<u8>,
    pub favicon: Vec<u8>,
    pub highlight_css: Vec<u8>,
    pub tomorrow_night_css: Vec<u8>,
    pub ayu_highlight_css: Vec<u8>,
}

/// Whether an item produces a manifest entry and a staged file: spacers and
/// items with an empty source path are skipped.
pub open spec fn item_renderable(item: BookItem) -> bool {
    match item {
        BookItem::Chapter(_, ch) => ch.path@.len() > 0,
        BookItem::Affix(ch) => ch.path@.len() > 0,
        BookItem::Spacer => false,
    }
}

/// The number of `'.'` characters in a section path.
pub open spec fn count_dots(s: Seq<char>) -> nat
    decreases s.len(),
{
    if s.len() == 0 {
        0
    } else {
        (if s[0] == '.' {
            1nat
        } else {
            0nat
        }) + count_dots(s.skip(1))
    }
}

/// Heading depth of an item: a chapter's section path has one segment more
/// than it has dots; affixes and spacers sit at depth zero.
pub open spec fn item_depth(item: BookItem) -> nat {
    match item {
        BookItem::Chapter(section, _) => count_dots(section@) + 1,
        BookItem::Affix(_) => 0,
        BookItem::Spacer => 0,
    }
}

/// Counts the segments of a dot-separated section path: dots plus one.
pub fn section_depth(section: &str) -> (d: usize)
    requires
        section@.len() < usize::MAX,
    ensures
        d as nat == count_dots(section@) + 1,
{
    let n = section.unicode_len();
    let mut dots: usize = 0;
    let mut i: usize = 0;
    proof {
        assert(section@.skip(0) =~= section@);
    }
    while i < n
        invariant
            0 <= i <= n,
            n == section@.len() < usize::MAX,
            dots <= i,
            dots + count_dots(section@.skip(i as int)) == count_dots(section@),
        decreases n - i,
    {
        proof {
            assert(section@.skip(i as int).len() > 0);
            assert(section@.skip(i as int).skip(1) =~= section@.skip(i + 1));
            assert(section@.skip(i as int)[0] == section@[i as int]);
        }
        let c = section.get_char(i);
        if c == '.' {
            dots = dots + 1;
        }
        i = i + 1;
    }
    proof {
        assert(section@.skip(n as int) =~= Seq::<char>::empty());
        assert(count_dots(section@.skip(n as int)) == 0);
    }
    dots + 1
}

} // verus!
