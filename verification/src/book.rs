//! The book tree and the order in which its chapters are processed.

use vstd::prelude::*;

verus! {

/// One chapter with the items below it.
#[derive(Debug)]
pub struct Chapter {
    pub name: String,
    pub content: String,
    pub sub_items: Vec<BookItem>,
}

/// One item of a book: a chapter, or something that is passed through
/// untouched.
#[derive(Debug)]
pub enum BookItem {
    Chapter(Chapter),
    Separator,
    PartTitle(String),
}

/// A book: its items in order.
#[derive(Debug)]
pub struct Book {
    pub items: Vec<BookItem>,
}

/// The paths of the chapters among `items` and below them, in the order of
/// a depth-first walk: a chapter comes before the chapters below it, and
/// all of those come before the chapter's next sibling. A path lists, from
/// the top, the position of each item on the way. `prefix` is the path of
/// the chapter that holds `items`.
pub open spec fn preorder(items: Seq<BookItem>, prefix: Seq<int>) -> Seq<Seq<int>>
    decreases items,
{
    if items.len() == 0 {
        Seq::empty()
    } else {
        let path = prefix.push(items.len() - 1);
        preorder(items.drop_last(), prefix) + match items.last() {
            BookItem::Chapter(chapter) => seq![path] + preorder(chapter.sub_items@, path),
            _ => Seq::empty(),
        }
    }
}

/// The chapter at the end of a path.
pub open spec fn chapter_at_spec(items: Seq<BookItem>, path: Seq<int>) -> Option<Chapter>
    decreases path.len(),
{
    if path.len() == 0 || path[0] < 0 || path[0] >= items.len() {
        None
    } else {
        match items[path[0]] {
            BookItem::Chapter(chapter) => if path.len() == 1 {
                Some(chapter)
            } else {
                chapter_at_spec(chapter.sub_items@, path.drop_first())
            },
            _ => None,
        }
    }
}

/// A path as positions.
pub open spec fn path_view(path: Seq<usize>) -> Seq<int> {
    Seq::new(path.len(), |i: int| path[i] as int)
}

pub open spec fn path_views(paths: Seq<Vec<usize>>) -> Seq<Seq<int>> {
    Seq::new(paths.len(), |i: int| path_view(paths[i]@))
}

fn copy_path(path: &Vec<usize>) -> (r: Vec<usize>)
    ensures
        r@ == path@,
{
    let mut r: Vec<usize> = Vec::new();
    let mut i: usize = 0;
    while i < path.len()
        invariant
            i <= path.len(),
            r@ == path@.take(i as int),
        decreases path.len() - i,
    {
        r.push(path[i]);
        i += 1;
    }
    assert(path@.take(path.len() as int) == path@);
    r
}

fn walk(items: &Vec<BookItem>, prefix: &Vec<usize>, out: &mut Vec<Vec<usize>>)
    ensures
        path_views(final(out)@) == path_views(old(out)@) + preorder(items@, path_view(prefix@)),
    decreases items@,
{
    let mut i: usize = 0;
    proof {
        assert(items@.take(0) =~= Seq::<BookItem>::empty());
        assert(path_views(out@) + Seq::<Seq<int>>::empty() =~= path_views(out@));
    }
    while i < items.len()
        invariant
            i <= items.len(),
            path_views(out@) == path_views(old(out)@) + preorder(
                items@.take(i as int),
                path_view(prefix@),
            ),
        decreases items.len() - i,
    {
        let ghost done = items@.take(i as int);
        let ghost next = items@.take(i + 1);
        let ghost before = out@;
        proof {
            assert(next.drop_last() =~= done);
            assert(next.last() == items@[i as int]);
        }
        match &items[i] {
            BookItem::Chapter(chapter) => {
                let mut path = copy_path(prefix);
                path.push(i);
                out.push(copy_path(&path));
                let ghost mid = out@;
                let ghost here = path_view(path@);
                let ghost above = path_view(prefix@);
                proof {
                    assert(here =~= above.push(next.len() - 1));
                    assert(path_views(mid) =~= path_views(before) + seq![here]);
                }
                walk(&chapter.sub_items, &path, out);
                proof {
                    let base = path_views(old(out)@);
                    let sub = preorder(chapter.sub_items@, here);
                    assert(path_views(out@) =~= base + preorder(next, above)) by {
                        assert(path_views(before) + seq![here] + sub =~= path_views(before) + (
                        seq![here] + sub));
                        assert(base + preorder(done, above) + (seq![here] + sub) =~= base + (
                        preorder(done, above) + (seq![here] + sub)));
                    }
                }
            },
            _ => {
                proof {
                    assert(preorder(next, path_view(prefix@)) =~= preorder(
                        done,
                        path_view(prefix@),
                    ));
                }
            },
        }
        i += 1;
    }
    assert(items@.take(items.len() as int) == items@);
}

/// The paths of all chapters of a book in the order in which they are
/// processed.
pub fn chapter_paths(book: &Book) -> (r: Vec<Vec<usize>>)
    ensures
        path_views(r@) == preorder(book.items@, Seq::<int>::empty()),
{
    let mut out: Vec<Vec<usize>> = Vec::new();
    let prefix: Vec<usize> = Vec::new();
    walk(&book.items, &prefix, &mut out);
    proof {
        let top = path_view(prefix@);
        assert(top =~= Seq::<int>::empty());
        assert(path_views(Seq::<Vec<usize>>::empty()) + preorder(book.items@, top) =~= preorder(
            book.items@,
            top,
        ));
    }
    out
}

/// Every path that the walk lists begins with the path of the chapter that
/// holds the items, and leads from those items to a chapter.
pub proof fn lemma_walk_lists_chapters(items: Seq<BookItem>, prefix: Seq<int>, i: int)
    requires
        0 <= i < preorder(items, prefix).len(),
    ensures
        ({
            let path = preorder(items, prefix)[i];
            &&& path.len() > prefix.len()
            &&& path.take(prefix.len() as int) == prefix
            &&& chapter_at_spec(items, path.skip(prefix.len() as int)) is Some
        }),
    decreases items,
{
    let n = prefix.len() as int;
    let before = preorder(items.drop_last(), prefix);
    let path = preorder(items, prefix)[i];
    if i < before.len() {
        lemma_walk_lists_chapters(items.drop_last(), prefix, i);
        assert(path == before[i]);
        lemma_chapter_at_longer(items.drop_last(), items, path.skip(n));
    } else {
        let own = prefix.push(items.len() - 1);
        match items.last() {
            BookItem::Chapter(chapter) => {
                if i == before.len() {
                    assert(path == own);
                    assert(own.take(n) =~= prefix);
                    assert(own.skip(n) =~= seq![items.len() - 1]);
                } else {
                    let j = i - before.len() - 1;
                    let below = preorder(chapter.sub_items@, own);
                    assert(path == below[j]);
                    lemma_walk_lists_chapters(chapter.sub_items@, own, j);
                    assert(path.take(n) =~= path.take(n + 1).take(n));
                    assert(own.take(n) =~= prefix);
                    let rest = path.skip(n);
                    assert(rest[0] == path[n]);
                    assert(path.take(n + 1)[n] == path[n]);
                    assert(rest.drop_first() =~= path.skip(n + 1));
                }
            },
            _ => {},
        }
    }
}

/// A path that leads to a chapter among some items leads to the same chapter
/// when more items follow them.
proof fn lemma_chapter_at_longer(items: Seq<BookItem>, longer: Seq<BookItem>, path: Seq<int>)
    requires
        items.len() <= longer.len(),
        forall|k: int| 0 <= k < items.len() ==> items[k] == longer[k],
        chapter_at_spec(items, path) is Some,
    ensures
        chapter_at_spec(longer, path) == chapter_at_spec(items, path),
{
}

fn chapter_from<'a>(items: &'a Vec<BookItem>, path: &Vec<usize>, depth: usize) -> (r: Option<
    &'a Chapter,
>)
    requires
        depth <= path.len(),
    ensures
        match r {
            Some(chapter) => chapter_at_spec(items@, path_view(path@).skip(depth as int)) == Some(
                *chapter,
            ),
            None => chapter_at_spec(items@, path_view(path@).skip(depth as int)) is None,
        },
    decreases path.len() - depth,
{
    let ghost rest = path_view(path@).skip(depth as int);
    if depth >= path.len() {
        return None;
    }
    assert(rest[0] == path@[depth as int]);
    let at = path[depth];
    if at >= items.len() {
        return None;
    }
    match &items[at] {
        BookItem::Chapter(chapter) => {
            if depth + 1 == path.len() {
                Some(chapter)
            } else {
                assert(rest.drop_first() =~= path_view(path@).skip(depth + 1));
                chapter_from(&chapter.sub_items, path, depth + 1)
            }
        },
        _ => None,
    }
}

/// The chapter that a path leads to, if it leads to one.
pub fn chapter_at<'a>(book: &'a Book, path: &Vec<usize>) -> (r: Option<&'a Chapter>)
    ensures
        match r {
            Some(chapter) => chapter_at_spec(book.items@, path_view(path@)) == Some(*chapter),
            None => chapter_at_spec(book.items@, path_view(path@)) is None,
        },
{
    assert(path_view(path@).skip(0) =~= path_view(path@));
    chapter_from(&book.items, path, 0)
}

} // verus!
