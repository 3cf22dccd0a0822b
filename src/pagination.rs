use vstd::prelude::*;

use crate::aggregate::Item;
use crate::error::ErrorKind;

verus! {

/// The first listing page: its pagination header, when the response carried
/// one, and its items, `None` when the body could not be read as items.
pub struct FirstPage {
    pub link: Option<String>,
    pub items: Option<Vec<Item>>,
}

/// The text of the first group of each successive match of `page=(\d+)` in
/// a pagination header, in order of appearance.
pub uninterp spec fn page_captures(link: Seq<char>) -> Seq<Seq<char>>;

/// Relies on regex's `Regex::captures_iter` for the pattern `page=(\d+)`:
/// the first group of each successive non-overlapping match, in order.
#[verifier::external_body]
fn page_numbers_in(link: &str) -> (r: Vec<String>)
    ensures
        r.deep_view() == page_captures(link@),
{
    let re = regex::Regex::new("page=(\\d+)").unwrap();
    re.captures_iter(link).map(|c| c[1].to_string()).collect()
}

pub open spec fn is_ascii_digit(c: char) -> bool {
    '0' <= c && c <= '9'
}

pub open spec fn all_ascii_digits(s: Seq<char>) -> bool {
    forall|i: int| 0 <= i < s.len() ==> #[trigger] is_ascii_digit(s[i])
}

/// The number that the decimal digits `s` write, most significant first.
pub open spec fn decimal_value(s: Seq<char>) -> nat
    decreases s.len(),
{
    if s.len() == 0 {
        0
    } else {
        decimal_value(s.drop_last()) * 10 + ((s.last() as u32) - ('0' as u32)) as nat
    }
}

/// The page number that `s` writes: a non-empty run of ASCII digits whose
/// value fits in `u32`.
pub open spec fn page_number_of(s: Seq<char>) -> Option<u32> {
    if s.len() > 0 && all_ascii_digits(s) && decimal_value(s) <= u32::MAX {
        Some(decimal_value(s) as u32)
    } else {
        None
    }
}

/// The total page count that the page numbers `captures` of a pagination
/// header give: the number in the last of them.
pub open spec fn last_page_of(captures: Seq<Seq<char>>) -> Result<u32, ErrorKind> {
    if captures.len() == 0 {
        Err(ErrorKind::MalformedResponse)
    } else {
        match page_number_of(captures.last()) {
            Some(n) => Ok(n),
            None => Err(ErrorKind::MalformedResponse),
        }
    }
}

/// The total page count that a first page with pagination header `link`
/// announces.
pub open spec fn total_pages_of(link: Option<Seq<char>>) -> Result<u32, ErrorKind> {
    match link {
        None => Err(ErrorKind::MissingPaginationHeader),
        Some(l) => last_page_of(page_captures(l)),
    }
}

proof fn lemma_decimal_prefix_le(s: Seq<char>, i: int)
    requires
        0 <= i <= s.len(),
        all_ascii_digits(s),
    ensures
        decimal_value(s.subrange(0, i)) <= decimal_value(s),
    decreases s.len(),
{
    if i < s.len() {
        let d = s.drop_last();
        assert(d.subrange(0, i) == s.subrange(0, i));
        assert(all_ascii_digits(d)) by {
            assert forall|k: int| 0 <= k < d.len() implies #[trigger] is_ascii_digit(d[k]) by {
                assert(is_ascii_digit(s[k]));
            }
        }
        lemma_decimal_prefix_le(d, i);
    } else {
        assert(s.subrange(0, i) == s);
    }
}

/// Reads a page number written in ASCII decimal digits.
pub fn parse_page_number(s: &str) -> (r: Option<u32>)
    ensures
        r == page_number_of(s@),
{
    let n: usize = s.unicode_len();
    if n == 0 {
        return None;
    }
    let mut acc: u64 = 0;
    let mut i: usize = 0;
    while i < n
        invariant
            n == s@.len(),
            0 <= i <= n,
            all_ascii_digits(s@.subrange(0, i as int)),
            acc == decimal_value(s@.subrange(0, i as int)),
            acc <= u32::MAX,
        decreases n - i,
    {
        let c: char = s.get_char(i);
        let ghost next = s@.subrange(0, i + 1);
        assert(next.drop_last() == s@.subrange(0, i as int));
        if c < '0' || c > '9' {
            assert(!is_ascii_digit(s@[i as int]));
            return None;
        }
        let d: u64 = ((c as u32) - ('0' as u32)) as u64;
        acc = acc * 10 + d;
        assert(all_ascii_digits(next)) by {
            assert forall|k: int| 0 <= k < next.len() implies #[trigger] is_ascii_digit(next[k]) by {
                if k < i {
                    assert(is_ascii_digit(s@.subrange(0, i as int)[k]));
                }
            }
        }
        if acc > 4294967295 {
            proof {
                if all_ascii_digits(s@) {
                    lemma_decimal_prefix_le(s@, i + 1);
                }
            }
            return None;
        }
        i = i + 1;
    }
    assert(s@.subrange(0, n as int) == s@);
    Some(acc as u32)
}

/// Reads the total page count from the page numbers of a pagination header:
/// the number in the last of them. No page number, or a last one that does
/// not read as a number, is a malformed response.
pub fn last_page_number(captures: &Vec<String>) -> (r: Result<u32, ErrorKind>)
    ensures
        r == last_page_of(captures.deep_view()),
{
    let n: usize = captures.len();
    if n == 0 {
        return Err(ErrorKind::MalformedResponse);
    }
    let last: &String = &captures[n - 1];
    assert(captures.deep_view().last() == last@);
    match parse_page_number(last.as_str()) {
        Some(p) => Ok(p),
        None => Err(ErrorKind::MalformedResponse),
    }
}

/// The total page count that a first page announces in its pagination
/// header `link`; a missing header is fatal.
pub fn total_pages(link: &Option<String>) -> (r: Result<u32, ErrorKind>)
    ensures
        r == total_pages_of(
            match link {
                Some(l) => Some(l@),
                None => None,
            },
        ),
{
    match link {
        None => Err(ErrorKind::MissingPaginationHeader),
        Some(l) => {
            let captures: Vec<String> = page_numbers_in(l.as_str());
            last_page_number(&captures)
        },
    }
}

/// The error of the first page of `pages` that failed, if any did.
pub open spec fn first_failure(pages: Seq<Result<Vec<Item>, ErrorKind>>) -> Option<ErrorKind>
    decreases pages.len(),
{
    if pages.len() == 0 {
        None
    } else {
        match first_failure(pages.drop_last()) {
            Some(e) => Some(e),
            None => match pages.last() {
                Err(e) => Some(e),
                Ok(_) => None,
            },
        }
    }
}

/// The items of the pages of `pages` that were fetched, in page order.
pub open spec fn concat_pages(pages: Seq<Result<Vec<Item>, ErrorKind>>) -> Seq<Item>
    decreases pages.len(),
{
    if pages.len() == 0 {
        seq![]
    } else {
        concat_pages(pages.drop_last()) + match pages.last() {
            Ok(v) => v@,
            Err(_) => seq![],
        }
    }
}

/// What fetching all pages gives when the first page held `first` and the
/// later pages came back as `rest`: all of their items, in page order, when
/// every later page was fetched; the first failure otherwise.
pub open spec fn joined_pages(first: Seq<Item>, rest: Seq<Result<Vec<Item>, ErrorKind>>) -> Result<
    Seq<Item>,
    ErrorKind,
> {
    match first_failure(rest) {
        Some(e) => Err(e),
        None => Ok(first + concat_pages(rest)),
    }
}

/// An item equal to `it`.
fn copy_item(it: &Item) -> (r: Item)
    ensures
        r == *it,
{
    let language: Option<String> = match &it.language {
        Some(s) => Some(s.clone()),
        None => None,
    };
    Item { id: it.id, language }
}

/// Joins the first page's items with the outcomes of the later pages, in
/// page order: all or nothing.
pub fn join_pages(first: Vec<Item>, rest: &Vec<Result<Vec<Item>, ErrorKind>>) -> (r: Result<
    Vec<Item>,
    ErrorKind,
>)
    ensures
        r is Ok ==> joined_pages(first@, rest@) == Ok::<Seq<Item>, ErrorKind>(r->Ok_0@),
        r is Err ==> joined_pages(first@, rest@) == Err::<Seq<Item>, ErrorKind>(r->Err_0),
{
    let ghost pages = rest@;
    let mut all: Vec<Item> = first;
    let n: usize = rest.len();
    let mut i: usize = 0;
    while i < n
        invariant
            n == pages.len(),
            pages == rest@,
            0 <= i <= n,
            first_failure(pages.subrange(0, i as int)) is None,
            all@ == first@ + concat_pages(pages.subrange(0, i as int)),
        decreases n - i,
    {
        let ghost next = pages.subrange(0, i + 1);
        assert(next.drop_last() == pages.subrange(0, i as int));
        assert(next.last() == pages[i as int]);
        match &rest[i] {
            Err(e) => {
                assert(first_failure(next) == Some(*e));
                proof {
                    lemma_first_failure_prefix(pages, i + 1);
                }
                return Err(*e);
            },
            Ok(v) => {
                let ghost base = all@;
                let m: usize = v.len();
                let mut k: usize = 0;
                while k < m
                    invariant
                        m == v@.len(),
                        0 <= k <= m,
                        all@ == base + v@.subrange(0, k as int),
                    decreases m - k,
                {
                    all.push(copy_item(&v[k]));
                    assert(v@.subrange(0, k + 1) == v@.subrange(0, k as int).push(v@[k as int]));
                    k = k + 1;
                }
                assert(v@.subrange(0, m as int) == v@);
            },
        }
        i = i + 1;
    }
    assert(pages.subrange(0, n as int) == pages);
    Ok(all)
}

/// A failure among the first `i` pages is the first failure of all pages.
proof fn lemma_first_failure_prefix(pages: Seq<Result<Vec<Item>, ErrorKind>>, i: int)
    requires
        0 <= i <= pages.len(),
        first_failure(pages.subrange(0, i)) is Some,
    ensures
        first_failure(pages) == first_failure(pages.subrange(0, i)),
    decreases pages.len(),
{
    if i < pages.len() {
        let d = pages.drop_last();
        assert(d.subrange(0, i) == pages.subrange(0, i));
        lemma_first_failure_prefix(d, i);
    } else {
        assert(pages.subrange(0, i) == pages);
    }
}

/// All or nothing: if any later page failed, fetching all pages fails and
/// no item is handed on.
pub proof fn lemma_failed_page_fails_all(
    first: Seq<Item>,
    rest: Seq<Result<Vec<Item>, ErrorKind>>,
    k: int,
)
    requires
        0 <= k < rest.len(),
        rest[k] is Err,
    ensures
        joined_pages(first, rest) is Err,
    decreases rest.len(),
{
    if k < rest.len() - 1 {
        lemma_failed_page_fails_all(first, rest.drop_last(), k);
    }
}

/// When every later page was fetched, fetching all pages hands on the first
/// page's items followed by each later page's items, in page order: none is
/// dropped and none is repeated.
pub proof fn lemma_fetched_pages_keep_every_item(
    first: Seq<Item>,
    rest: Seq<Result<Vec<Item>, ErrorKind>>,
)
    requires
        forall|k: int| 0 <= k < rest.len() ==> #[trigger] rest[k] is Ok,
    ensures
        joined_pages(first, rest) == Ok::<Seq<Item>, ErrorKind>(first + concat_pages(rest)),
    decreases rest.len(),
{
    if rest.len() > 0 {
        let d = rest.drop_last();
        assert forall|k: int| 0 <= k < d.len() implies #[trigger] d[k] is Ok by {
            assert(rest[k] is Ok);
        }
        lemma_fetched_pages_keep_every_item(first, d);
        assert(rest[rest.len() - 1] is Ok);
    }
}

} // verus!
