//! The asset publisher's pure side: the fixed theme-asset writes, the
//! accumulated stylesheet reference list, and the name a user-supplied asset
//! is copied under in the output root.

use vstd::prelude::*;
use vstd::string::StrSliceExecFns;
use crate::book::Theme;

verus! {

/// One file to write under the output root: a relative path and its bytes.
#[derive(Debug, Clone, PartialEq, Eq)]
pub struct FileWrite {
    pub rel_path: String,
    pub content: Vec<u8>,
}

/// The mathematical value of a `FileWrite`.
pub struct FileWriteView {
    pub rel_path: Seq<char>,
    pub content: Seq<u8>,
}

impl View for FileWrite {
    type V = FileWriteView;

    open spec fn view(&self) -> FileWriteView {
        FileWriteView { rel_path: self.rel_path@, content: self.content@ }
    }
}

/// One user asset to copy: the declared source path and the name of its
/// copy under the output root.
#[derive(Debug, Clone, PartialEq, Eq)]
pub struct AssetCopy {
    pub source: String,
    pub target: String,
}

/// The mathematical value of an `AssetCopy`.
pub struct AssetCopyView {
    pub source: Seq<char>,
    pub target: Seq<char>,
}

impl View for AssetCopy {
    type V = AssetCopyView;

    open spec fn view(&self) -> AssetCopyView {
        AssetCopyView { source: self.source@, target: self.target@ }
    }
}

/// The four built-in stylesheet names, in their fixed order. The favicon is
/// written too but never referenced as a stylesheet.
pub open spec fn builtin_styles() -> Seq<Seq<char>> {
    seq!["book.css"@, "highlight.css"@, "tomorrow-night.css"@, "ayu-highlight.css"@]
}

/// The stylesheet reference list: the built-in names first, then the
/// user-declared stylesheets in declaration order. Duplicates are kept.
pub open spec fn style_references(additional_css: Seq<Seq<char>>) -> Seq<Seq<char>> {
    builtin_styles() + additional_css
}

/// The five fixed theme-asset writes, in order.
pub open spec fn static_write_plan(theme: Theme) -> Seq<FileWriteView> {
    seq![
        FileWriteView { rel_path: "book.css"@, content: theme.css@ },
        FileWriteView { rel_path: "favicon.png"@, content: theme.favicon@ },
        FileWriteView { rel_path: "highlight.css"@, content: theme.highlight_css@ },
        FileWriteView { rel_path: "tomorrow-night.css"@, content: theme.tomorrow_night_css@ },
        FileWriteView { rel_path: "ayu-highlight.css"@, content: theme.ayu_highlight_css@ },
    ]
}

/// The file name of a path: what follows its last `'/'` (the whole path
/// when it has none; empty after a trailing `'/'`).
pub open spec fn base_name(p: Seq<char>) -> Seq<char>
    decreases p.len(),
{
    if p.len() == 0 {
        Seq::empty()
    } else if p.last() == '/' {
        Seq::empty()
    } else {
        base_name(p.drop_last()) + seq![p.last()]
    }
}

/// The name a user asset is copied under: its path relative to the book
/// root when it lies under the root, else its bare file name.
pub open spec fn custom_asset_name(root: Seq<char>, path: Seq<char>) -> Seq<char> {
    if root.len() + 1 <= path.len() && path.subrange(0, root.len() + 1 as int) == root + seq!['/'] {
        path.skip(root.len() + 1 as int)
    } else {
        base_name(path)
    }
}

/// The copy plan for a list of user assets, in declaration order.
pub open spec fn asset_copy_plan(root: Seq<char>, paths: Seq<Seq<char>>) -> Seq<AssetCopyView> {
    paths.map_values(|p: Seq<char>| AssetCopyView { source: p, target: custom_asset_name(root, p) })
}

/// Law — style accumulation: whatever stylesheets the user declares, the
/// reference list opens with the four built-in names in their fixed order
/// and continues with exactly the declared ones, in declaration order.
pub proof fn lemma_style_accumulation(additional_css: Seq<Seq<char>>)
    ensures
        style_references(additional_css).len() == 4 + additional_css.len(),
        style_references(additional_css).subrange(0, 4) == builtin_styles(),
        style_references(additional_css)[0] == "book.css"@,
        style_references(additional_css)[1] == "highlight.css"@,
        style_references(additional_css)[2] == "tomorrow-night.css"@,
        style_references(additional_css)[3] == "ayu-highlight.css"@,
        style_references(additional_css).skip(4) == additional_css,
{
    assert(style_references(additional_css).subrange(0, 4) =~= builtin_styles());
    assert(style_references(additional_css).skip(4) =~= additional_css);
}

fn clone_bytes(v: &Vec<u8>) -> (r: Vec<u8>)
    ensures
        r@ == v@,
{
    let mut out: Vec<u8> = Vec::new();
    let mut i: usize = 0;
    while i < v.len()
        invariant
            0 <= i <= v@.len(),
            out@ == v@.take(i as int),
        decreases v@.len() - i,
    {
        out.push(v[i]);
        proof {
            assert(v@.take(i as int).push(v@[i as int]) =~= v@.take(i + 1));
        }
        i = i + 1;
    }
    proof {
        assert(v@.take(v@.len() as int) =~= v@);
    }
    out
}

/// The stylesheet reference list as values: built-ins first, then the
/// user-declared stylesheets.
pub fn style_reference_list(additional_css: &Vec<String>) -> (r: Vec<String>)
    ensures
        r.deep_view() == style_references(additional_css.deep_view()),
{
    let mut r: Vec<String> = Vec::new();
    r.push("book.css".to_owned());
    r.push("highlight.css".to_owned());
    r.push("tomorrow-night.css".to_owned());
    r.push("ayu-highlight.css".to_owned());
    proof {
        assert(r.deep_view() =~= builtin_styles());
        assert(builtin_styles() + additional_css.deep_view().take(0) =~= builtin_styles());
    }
    let mut i: usize = 0;
    while i < additional_css.len()
        invariant
            0 <= i <= additional_css@.len(),
            r.deep_view() == builtin_styles() + additional_css.deep_view().take(i as int),
        decreases additional_css@.len() - i,
    {
        let ghost before = r.deep_view();
        r.push(additional_css[i].clone());
        proof {
            assert(r.deep_view() =~= before + seq![additional_css@[i as int]@]);
            assert(additional_css.deep_view()[i as int] == additional_css@[i as int]@);
            assert(builtin_styles() + additional_css.deep_view().take(i as int) + seq![
                additional_css.deep_view()[i as int],
            ] =~= builtin_styles() + additional_css.deep_view().take(i + 1));
        }
        i = i + 1;
    }
    proof {
        assert(additional_css.deep_view().take(additional_css@.len() as int) =~= additional_css
            .deep_view());
    }
    r
}

/// The five theme-asset writes for the output root, favicon included.
pub fn static_file_writes(theme: &Theme) -> (r: Vec<FileWrite>)
    ensures
        r@.map_values(|w: FileWrite| w@) == static_write_plan(*theme),
{
    let mut r: Vec<FileWrite> = Vec::new();
    r.push(FileWrite { rel_path: "book.css".to_owned(), content: clone_bytes(&theme.css) });
    r.push(FileWrite { rel_path: "favicon.png".to_owned(), content: clone_bytes(&theme.favicon) });
    r.push(
        FileWrite {
            rel_path: "highlight.css".to_owned(),
            content: clone_bytes(&theme.highlight_css),
        },
    );
    r.push(
        FileWrite {
            rel_path: "tomorrow-night.css".to_owned(),
            content: clone_bytes(&theme.tomorrow_night_css),
        },
    );
    r.push(
        FileWrite {
            rel_path: "ayu-highlight.css".to_owned(),
            content: clone_bytes(&theme.ayu_highlight_css),
        },
    );
    proof {
        assert(r@.map_values(|w: FileWrite| w@) =~= static_write_plan(*theme));
    }
    r
}

/// Computes the name a user asset is copied under.
pub fn custom_asset_target(root: &str, path: &str) -> (r: String)
    ensures
        r@ == custom_asset_name(root@, path@),
{
    let rn = root.unicode_len();
    let pn = path.unicode_len();
    let mut under_root = rn < pn;
    if under_root {
        if path.get_char(rn) != '/' {
            under_root = false;
            proof {
                assert(path@.subrange(0, rn + 1)[rn as int] == path@[rn as int]);
                assert((root@ + seq!['/'])[rn as int] == '/');
                assert(path@.subrange(0, rn + 1) != root@ + seq!['/']);
            }
        } else {
            let mut k: usize = 0;
            let mut all_equal = true;
            while k < rn
                invariant
                    0 <= k <= rn,
                    rn == root@.len(),
                    pn == path@.len(),
                    rn < pn,
                    all_equal == (forall|t: int| 0 <= t < k ==> path@[t] == root@[t]),
                decreases rn - k,
            {
                if path.get_char(k) != root.get_char(k) {
                    all_equal = false;
                }
                k = k + 1;
            }
            if all_equal {
                proof {
                    assert(path@.subrange(0, rn + 1) =~= root@ + seq!['/']);
                }
            } else {
                under_root = false;
                proof {
                    let t = choose|t: int| 0 <= t < rn && path@[t] != root@[t];
                    assert(path@.subrange(0, rn + 1)[t] == path@[t]);
                    assert((root@ + seq!['/'])[t] == root@[t]);
                    assert(path@.subrange(0, rn + 1) != root@ + seq!['/']);
                }
            }
        }
    }
    if under_root {
        path.substring_char(rn + 1, pn).to_owned()
    } else {
        proof {
            if rn < pn {
            } else {
                assert(!(root@.len() + 1 <= path@.len()));
            }
        }
        let mut start: usize = 0;
        let mut k: usize = 0;
        proof {
            assert(path@.take(0) =~= Seq::<char>::empty());
            assert(path@.subrange(0, 0) =~= Seq::<char>::empty());
        }
        while k < pn
            invariant
                0 <= start <= k <= pn,
                pn == path@.len(),
                base_name(path@.take(k as int)) == path@.subrange(start as int, k as int),
            decreases pn - k,
        {
            let c = path.get_char(k);
            proof {
                assert(path@.take(k + 1).drop_last() =~= path@.take(k as int));
                assert(path@.take(k + 1).last() == path@[k as int]);
            }
            if c == '/' {
                start = k + 1;
                proof {
                    assert(path@.subrange(k + 1, k + 1) =~= Seq::<char>::empty());
                }
            } else {
                proof {
                    assert(path@.subrange(start as int, k as int) + seq![path@[k as int]]
                        =~= path@.subrange(start as int, k + 1));
                }
            }
            k = k + 1;
        }
        proof {
            assert(path@.take(pn as int) =~= path@);
        }
        path.substring_char(start, pn).to_owned()
    }
}

/// The copy plan for the user's additional assets, in declaration order.
pub fn additional_asset_plan(root: &str, paths: &Vec<String>) -> (r: Vec<AssetCopy>)
    ensures
        r@.map_values(|a: AssetCopy| a@) == asset_copy_plan(root@, paths.deep_view()),
{
    let ghost target_of = |p: Seq<char>| AssetCopyView {
        source: p,
        target: custom_asset_name(root@, p),
    };
    let mut r: Vec<AssetCopy> = Vec::new();
    proof {
        assert(r@.map_values(|a: AssetCopy| a@) =~= paths.deep_view().take(0).map_values(
            target_of,
        ));
    }
    let mut i: usize = 0;
    while i < paths.len()
        invariant
            0 <= i <= paths@.len(),
            target_of == (|p: Seq<char>| AssetCopyView {
                source: p,
                target: custom_asset_name(root@, p),
            }),
            r@.map_values(|a: AssetCopy| a@) == paths.deep_view().take(i as int).map_values(
                target_of,
            ),
        decreases paths@.len() - i,
    {
        let target = custom_asset_target(root, paths[i].as_str());
        let ghost before = r@;
        r.push(AssetCopy { source: paths[i].clone(), target });
        proof {
            assert(r@.map_values(|a: AssetCopy| a@) =~= before.map_values(|a: AssetCopy| a@)
                + seq![target_of(paths.deep_view()[i as int])]);
            assert(paths.deep_view().take(i as int).map_values(target_of) + seq![
                target_of(paths.deep_view()[i as int]),
            ] =~= paths.deep_view().take(i + 1).map_values(target_of));
        }
        i = i + 1;
    }
    proof {
        assert(paths.deep_view().take(paths@.len() as int) =~= paths.deep_view());
    }
    r
}

} // verus!
