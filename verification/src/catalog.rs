//! The catalog itself: book records, ordered storage, and the four
//! operations on it — insert, remove by title, lookup by title, and
//! filter by author.

use vstd::prelude::*;
use vstd::string::StringExecFns;

verus! {

/// Represents a book in a library.
pub struct Book {
    pub title: String,
    pub author: String,
    pub year: u32,
}

impl Book {
    /// The text of this book's summary: title, author and year in the
    /// form `<title> von <author> (<year>)`.
    pub open spec fn summary_text(self) -> Seq<char> {
        self.title@ + " von "@ + self.author@ + " ("@ + crate::decimal::decimal_digits(
            self.year as nat,
        ) + ")"@
    }

    /// Generates a summary of the book: a string containing the book's
    /// title, author, and year.
    pub fn summary(&self) -> (r: String)
        ensures
            r@ == self.summary_text(),
    {
        let mut s = self.title.clone();
        s.append(" von ");
        s.append(self.author.as_str());
        s.append(" (");
        let year = crate::decimal::u32_to_decimal(self.year);
        s.append(year.as_str());
        s.append(")");
        proof {
            assert(s@ =~= self.summary_text());
        }
        s
    }
}

/// The one error the catalog raises: no record carries the searched title.
/// It holds the title that was searched for.
pub enum CatalogError {
    NotFound(String),
}

/// Represents a library containing a collection of books.
///
/// The records are kept in insertion order; its abstract value is the
/// sequence of books it holds.
pub struct Library {
    books: Vec<Book>,
}

impl View for Library {
    type V = Seq<Book>;

    closed spec fn view(&self) -> Seq<Book> {
        self.books@
    }
}

/// Whether some record in `s` carries exactly the title `t`.
pub open spec fn has_title(s: Seq<Book>, t: Seq<char>) -> bool {
    exists|i: int| 0 <= i < s.len() && s[i].title@ == t
}

/// The position of the first record in `s` whose title is exactly `t`
/// (meaningful only when `has_title(s, t)` holds).
pub open spec fn index_of_title(s: Seq<Book>, t: Seq<char>) -> int
    decreases s.len(),
{
    if s.len() == 0 {
        0
    } else if s[0].title@ == t {
        0
    } else {
        1 + index_of_title(s.subrange(1, s.len() as int), t)
    }
}

/// When some record carries the title, `index_of_title` points at the
/// earliest one: it is in range, its title matches, and no earlier
/// record's title does.
pub proof fn lemma_index_of_title(s: Seq<Book>, t: Seq<char>)
    requires
        has_title(s, t),
    ensures
        0 <= index_of_title(s, t) < s.len(),
        s[index_of_title(s, t)].title@ == t,
        forall|j: int| 0 <= j < index_of_title(s, t) ==> s[j].title@ != t,
    decreases s.len(),
{
    if s[0].title@ != t {
        let rest = s.subrange(1, s.len() as int);
        let w = choose|i: int| 0 <= i < s.len() && s[i].title@ == t;
        assert(rest[w - 1].title@ == t);
        lemma_index_of_title(rest, t);
        assert forall|j: int| 0 <= j < index_of_title(s, t) implies s[j].title@ != t by {
            if j >= 1 {
                assert(rest[j - 1].title@ != t);
            }
        }
    }
}

/// A record that matches at `i`, with no match before it, stands exactly
/// where `index_of_title` points.
pub proof fn lemma_first_match_is_index(s: Seq<Book>, t: Seq<char>, i: int)
    requires
        0 <= i < s.len(),
        s[i].title@ == t,
        forall|j: int| 0 <= j < i ==> s[j].title@ != t,
    ensures
        has_title(s, t),
        index_of_title(s, t) == i,
{
    assert(has_title(s, t));
    lemma_index_of_title(s, t);
    let k = index_of_title(s, t);
    if k < i {
        assert(s[k].title@ != t);
    }
    if i < k {
        assert(s[i].title@ != t);
    }
}

/// The records of `s` whose author is exactly `a`, in their original order.
pub open spec fn by_author(s: Seq<Book>, a: Seq<char>) -> Seq<Book> {
    s.filter(|b: Book| b.author@ == a)
}

/// Filtering by author keeps the original insertion order: taking one
/// more record into account keeps the earlier selection unchanged and
/// appends the record exactly when its author matches.
pub proof fn lemma_by_author_step(s: Seq<Book>, a: Seq<char>, i: int)
    requires
        0 <= i < s.len(),
    ensures
        by_author(s.subrange(0, i + 1), a) == (if s[i].author@ == a {
            by_author(s.subrange(0, i), a).push(s[i])
        } else {
            by_author(s.subrange(0, i), a)
        }),
{
    reveal(Seq::filter);
    let pre = s.subrange(0, i + 1);
    assert(pre.drop_last() =~= s.subrange(0, i));
    assert(pre.last() == s[i]);
}

/// The catalog state after inserting each record of `rs` in turn into a
/// catalog in state `c` — each insert appends its record, as `add_book`
/// ensures.
pub open spec fn after_inserts(c: Seq<Book>, rs: Seq<Book>) -> Seq<Book>
    decreases rs.len(),
{
    if rs.len() == 0 {
        c
    } else {
        after_inserts(c.push(rs[0]), rs.subrange(1, rs.len() as int))
    }
}

/// A sequence of inserts grows the catalog by exactly the number of
/// inserts performed; starting from the empty catalog, the length then
/// equals that number.
pub proof fn lemma_inserts_count(c: Seq<Book>, rs: Seq<Book>)
    ensures
        after_inserts(c, rs).len() == c.len() + rs.len(),
    decreases rs.len(),
{
    if rs.len() > 0 {
        lemma_inserts_count(c.push(rs[0]), rs.subrange(1, rs.len() as int));
    }
}

/// An empty catalog holds no title at all, so removing or looking up any
/// title in it finds nothing.
pub proof fn lemma_empty_has_no_title(s: Seq<Book>, t: Seq<char>)
    requires
        s.len() == 0,
    ensures
        !has_title(s, t),
{
}

/// Inserting a record into a catalog whose records' titles all differ
/// from its own, then removing its title, leaves that title absent: the
/// insert is found first and taken out, and the catalog is as before.
pub proof fn lemma_insert_then_remove_leaves_absent(s: Seq<Book>, r: Book)
    requires
        !has_title(s, r.title@),
    ensures
        has_title(s.push(r), r.title@),
        index_of_title(s.push(r), r.title@) == s.len(),
        s.push(r).remove(index_of_title(s.push(r), r.title@)) == s,
        !has_title(s.push(r).remove(index_of_title(s.push(r), r.title@)), r.title@),
{
    let s2 = s.push(r);
    assert(forall|j: int| 0 <= j < s.len() ==> s2[j].title@ != r.title@);
    lemma_first_match_is_index(s2, r.title@, s.len() as int);
    assert(s2.remove(s.len() as int) =~= s);
}

/// With two records of one title inserted in turn, a single removal takes
/// out the earliest-inserted of the two; the later one stays and is the
/// record that a lookup of the title then finds.
pub proof fn lemma_remove_keeps_later_duplicate(s: Seq<Book>, r1: Book, r2: Book)
    requires
        r1.title@ == r2.title@,
        !has_title(s, r1.title@),
    ensures
        index_of_title(s.push(r1).push(r2), r1.title@) == s.len(),
        s.push(r1).push(r2).remove(index_of_title(s.push(r1).push(r2), r1.title@)) == s.push(r2),
        has_title(s.push(r2), r2.title@),
        index_of_title(s.push(r2), r2.title@) == s.len(),
        s.push(r2)[index_of_title(s.push(r2), r2.title@)] == r2,
{
    let t = r1.title@;
    let s2 = s.push(r1).push(r2);
    assert(forall|j: int| 0 <= j < s.len() ==> s2[j].title@ != t);
    assert(s2[s.len() as int] == r1);
    lemma_first_match_is_index(s2, t, s.len() as int);
    assert(s2.remove(s.len() as int) =~= s.push(r2));
    assert(forall|j: int| 0 <= j < s.len() ==> s.push(r2)[j].title@ != t);
    lemma_first_match_is_index(s.push(r2), t, s.len() as int);
}

/// Every record that the author filter keeps carries exactly the searched
/// author.
pub proof fn lemma_by_author_matches(s: Seq<Book>, a: Seq<char>)
    ensures
        forall|i: int| 0 <= i < by_author(s, a).len() ==> by_author(s, a)[i].author@ == a,
    decreases s.len(),
{
    reveal(Seq::filter);
    if s.len() > 0 {
        lemma_by_author_matches(s.drop_last(), a);
    }
}

/// An author no record carries selects nothing: the filter result is
/// empty.
pub proof fn lemma_no_author_matches_empty(s: Seq<Book>, a: Seq<char>)
    requires
        forall|i: int| 0 <= i < s.len() ==> s[i].author@ != a,
    ensures
        by_author(s, a).len() == 0,
    decreases s.len(),
{
    reveal(Seq::filter);
    if s.len() > 0 {
        let head = s.drop_last();
        assert(forall|i: int| 0 <= i < head.len() ==> head[i] == s[i]);
        lemma_no_author_matches_empty(head, a);
    }
}

impl Library {
    /// Creates a new, empty library.
    pub fn new() -> (r: Library)
        ensures
            r@ == Seq::<Book>::empty(),
    {
        Library { books: Vec::new() }
    }

    /// The number of books the library currently holds.
    pub fn len(&self) -> (n: usize)
        ensures
            n == self@.len(),
    {
        self.books.len()
    }

    /// Adds a book to the library, at the end of the sequence.
    /// Always succeeds; the sequence grows by exactly one.
    pub fn add_book(&mut self, book: Book)
        ensures
            final(self)@ == old(self)@.push(book),
            final(self)@.len() == old(self)@.len() + 1,
    {
        self.books.push(book);
    }

    /// Removes the first book whose title exactly equals `title`.
    ///
    /// Scans in insertion order; later records with the same title stay
    /// untouched. When no record matches, the library is unchanged and the
    /// error carries the searched title.
    pub fn remove_book(&mut self, title: &str) -> (r: Result<(), CatalogError>)
        ensures
            r is Ok <==> has_title(old(self)@, title@),
            has_title(old(self)@, title@) ==> final(self)@ == old(self)@.remove(
                index_of_title(old(self)@, title@),
            ),
            !has_title(old(self)@, title@) ==> final(self)@ == old(self)@,
            r matches Err(e) ==> (e matches CatalogError::NotFound(s) && s@ == title@),
    {
        let searched = title.to_owned();
        let mut i: usize = 0;
        while i < self.books.len()
            invariant
                i <= self.books.len(),
                searched@ == title@,
                self@ == old(self)@,
                forall|j: int| 0 <= j < i ==> self@[j].title@ != title@,
            decreases self.books.len() - i,
        {
            if self.books[i].title == searched {
                proof {
                    lemma_first_match_is_index(self@, title@, i as int);
                }
                self.books.remove(i);
                return Ok(());
            }
            i += 1;
        }
        proof {
            assert(!has_title(self@, title@)) by {
                if has_title(self@, title@) {
                    let w = choose|k: int| 0 <= k < self@.len() && self@[k].title@ == title@;
                    assert(self@[w].title@ != title@);
                }
            }
        }
        Err(CatalogError::NotFound(searched))
    }

    /// Retrieves the first book whose title exactly equals `title`, or
    /// `None` if no book carries that title. Never mutates.
    pub fn get_book_by_title(&self, title: &str) -> (r: Option<&Book>)
        ensures
            r is Some <==> has_title(self@, title@),
            r matches Some(b) ==> *b == self@[index_of_title(self@, title@)],
    {
        let searched = title.to_owned();
        let mut i: usize = 0;
        while i < self.books.len()
            invariant
                i <= self.books.len(),
                searched@ == title@,
                forall|j: int| 0 <= j < i ==> self@[j].title@ != title@,
            decreases self.books.len() - i,
        {
            if self.books[i].title == searched {
                proof {
                    lemma_first_match_is_index(self@, title@, i as int);
                }
                return Some(&self.books[i]);
            }
            i += 1;
        }
        proof {
            assert(!has_title(self@, title@)) by {
                if has_title(self@, title@) {
                    let w = choose|k: int| 0 <= k < self@.len() && self@[k].title@ == title@;
                    assert(self@[w].title@ != title@);
                }
            }
        }
        None
    }

    /// Retrieves every book whose author exactly equals `author`, in the
    /// original insertion order. The result is empty — not an error — when
    /// no book matches. Never mutates.
    pub fn get_books_by_author(&self, author: &str) -> (r: Vec<&Book>)
        ensures
            r@.map_values(|b: &Book| *b) == by_author(self@, author@),
    {
        let searched = author.to_owned();
        let mut result: Vec<&Book> = Vec::new();
        let mut i: usize = 0;
        while i < self.books.len()
            invariant
                i <= self.books.len(),
                searched@ == author@,
                result@.map_values(|b: &Book| *b) == by_author(
                    self@.subrange(0, i as int),
                    author@,
                ),
            decreases self.books.len() - i,
        {
            let ghost prev = result@.map_values(|b: &Book| *b);
            if self.books[i].author == searched {
                result.push(&self.books[i]);
                proof {
                    assert(result@.map_values(|b: &Book| *b) =~= prev.push(self@[i as int]));
                }
            }
            proof {
                lemma_by_author_step(self@, author@, i as int);
            }
            i += 1;
        }
        proof {
            assert(self@.subrange(0, self@.len() as int) =~= self@);
        }
        result
    }
}

} // verus!
