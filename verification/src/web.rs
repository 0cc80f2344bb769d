//! Web addresses as texts. Addresses are taken apart and put together by the
//! `url` crate.
use vstd::prelude::*;

use crate::text::{char_len, chars_of, slice_text};

verus! {

/// The number of bytes above which the `url` crate panics: it counts the places
/// in an address in 32 bits.
pub const MAX_URL_BYTES: usize = 0xffff_ffff;

/// Why an address could not be built.
#[derive(Clone, Copy, Debug, PartialEq, Eq, Structural)]
pub enum UrlFault {
    /// The text is not an address.
    NotAUrl,
    /// The address outgrows what can be counted in 32 bits.
    TooLong,
}

/// The normal form of an address, or why the text is none.
pub uninterp spec fn parsed_url(text: Seq<char>) -> Result<Seq<char>, Seq<char>>;

/// `url::Url::parse`, with the address as the text it is serialised to, and
/// the error in the words of `url::ParseError`. Both are functions of the text
/// alone; what they are for a given text is not stated.
#[verifier::external_body]
pub(crate) fn parse_url(text: &str) -> (r: Result<String, String>)
    ensures
        match r {
            Ok(url) => parsed_url(text@) == Ok::<Seq<char>, Seq<char>>(url@),
            Err(reason) => parsed_url(text@) == Err::<Seq<char>, Seq<char>>(reason@),
        },
{
    match url::Url::parse(text) {
        Ok(url) => Ok(String::from(url)),
        Err(error) => Err(error.to_string()),
    }
}

/// The path of an address; nothing where the text is not an address.
pub uninterp spec fn url_path(text: Seq<char>) -> Option<Seq<char>>;

/// `url::Url::path`, of the address that the text is. The path is a function
/// of the text alone, and has neither `?` nor `#`; what it is otherwise for a
/// given text is not stated.
#[verifier::external_body]
fn path_of(text: &str) -> (r: Option<String>)
    ensures
        match r {
            Some(path) => {
                &&& url_path(text@) == Some(path@)
                &&& !path@.contains('?')
                &&& !path@.contains('#')
            },
            None => url_path(text@) is None,
        },
{
    match url::Url::parse(text) {
        Ok(url) => Some(url.path().to_owned()),
        Err(_) => None,
    }
}

/// What stands before the first `mark`.
pub open spec fn before(text: Seq<char>, mark: char) -> Seq<char>
    decreases text.len(),
{
    if text.len() == 0 || text[0] == mark {
        Seq::empty()
    } else {
        seq![text[0]] + before(text.drop_first(), mark)
    }
}

/// The bytes of a character in UTF-8.
pub open spec fn utf8_len(c: char) -> nat {
    if c <= '\u{7f}' {
        1
    } else if c <= '\u{7ff}' {
        2
    } else if c <= '\u{ffff}' {
        3
    } else {
        4
    }
}

/// Whether a character stands in a path as three characters for each of its
/// bytes. Where nothing but a path follows the scheme, fewer do.
pub open spec fn escaped_in_path(c: char, opaque: bool) -> bool {
    ||| c < ' ' || c > '~'
    ||| !opaque && (c == ' ' || c == '"' || c == '<' || c == '>' || c == '`' || c == '#' || c == '?'
        || c == '{' || c == '}')
}

/// The bytes that a text takes in a path.
pub open spec fn path_bytes(path: Seq<char>, opaque: bool) -> nat
    decreases path.len(),
{
    if path.len() == 0 {
        0
    } else {
        path_bytes(path.drop_last(), opaque) + if escaped_in_path(path.last(), opaque) {
            3 * utf8_len(path.last())
        } else {
            1
        }
    }
}

/// Whether nothing but a path follows the scheme of an address.
pub open spec fn is_opaque(url: Seq<char>) -> bool {
    let colon = before(url, ':').len() as int;
    !(colon + 1 < url.len() && url[colon + 1] == '/')
}

/// The bytes that the slash in front of a path takes beyond those of the path:
/// it is added where it is missing, and escaped where none may stand.
pub open spec fn slash_bytes(path: Seq<char>, opaque: bool) -> nat {
    let there = path.len() > 0 && path[0] == '/';
    if opaque {
        if there {
            2
        } else {
            0
        }
    } else if there {
        0
    } else {
        1
    }
}

/// Whether an address can be counted before and after it gets another path.
pub open spec fn path_fits(text: Seq<char>, path: Seq<char>) -> bool {
    match (parsed_url(text), url_path(text)) {
        (Ok(url), Some(gone)) => {
            &&& url.len() <= MAX_URL_BYTES
            &&& url.len() + path_bytes(path, is_opaque(url)) + slash_bytes(path, is_opaque(url))
                <= MAX_URL_BYTES + gone.len()
        },
        _ => true,
    }
}

/// An address with another path; nothing where the text is not an address.
pub uninterp spec fn url_with_path(text: Seq<char>, path: Seq<char>) -> Option<Seq<char>>;

/// `url::Url::set_path`, on the address that the text is. The result is a
/// function of both texts, and has neither `?` nor `#` where they have none;
/// what it is otherwise for given ones is not stated. The `url` crate panics
/// where a place in the address cannot be counted in 32 bits, before or after.
#[verifier::external_body]
fn set_path(text: &str, path: &str) -> (r: Option<String>)
    requires
        path_fits(text@, path@),
    ensures
        match r {
            Some(url) => {
                &&& url_with_path(text@, path@) == Some(url@)
                &&& !text@.contains('?') && !path@.contains('?') && !text@.contains('#')
                    && !path@.contains('#') ==> !url@.contains('?') && !url@.contains('#')
            },
            None => url_with_path(text@, path@) is None,
        },
{
    let mut url = url::Url::parse(text).ok()?;
    url.set_path(path);
    Some(String::from(url))
}

/// An address without its query; nothing where the text is not an address.
pub uninterp spec fn url_without_query(text: Seq<char>) -> Option<Seq<char>>;

/// `url::Url::set_query(None)`, on the address that the text is. The result is
/// a function of the text, and has no `?` before its fragment; what it is
/// otherwise for a given text is not stated.
#[verifier::external_body]
fn drop_query(text: &str) -> (r: Option<String>)
    ensures
        match r {
            Some(url) => url_without_query(text@) == Some(url@) && !before(url@, '#').contains(
                '?',
            ),
            None => url_without_query(text@) is None,
        },
{
    let mut url = url::Url::parse(text).ok()?;
    url.set_query(None);
    Some(String::from(url))
}

/// An address without its fragment; nothing where the text is not an address.
pub uninterp spec fn url_without_fragment(text: Seq<char>) -> Option<Seq<char>>;

/// `url::Url::set_fragment(None)`, on the address that the text is. The result
/// is a function of the text, has no `#`, and has no `?` where the text has
/// none before its fragment; what it is otherwise for a given text is not
/// stated.
#[verifier::external_body]
fn drop_fragment(text: &str) -> (r: Option<String>)
    ensures
        match r {
            Some(url) => {
                &&& url_without_fragment(text@) == Some(url@)
                &&& !url@.contains('#')
                &&& !before(text@, '#').contains('?') ==> !url@.contains('?')
            },
            None => url_without_fragment(text@) is None,
        },
{
    let mut url = url::Url::parse(text).ok()?;
    url.set_fragment(None);
    Some(String::from(url))
}

/// The texts behind pairs of a name and a value.
pub open spec fn pair_views(pairs: Seq<(String, String)>) -> Seq<(Seq<char>, Seq<char>)> {
    Seq::new(pairs.len(), |i: int| (pairs[i].0@, pairs[i].1@))
}

/// Whether a character stands in a query as three characters for each of its
/// bytes.
pub open spec fn escaped_in_query(c: char) -> bool {
    !('a' <= c <= 'z' || 'A' <= c <= 'Z' || '0' <= c <= '9' || c == '*' || c == '-' || c == '.' || c
        == '_' || c == ' ')
}

/// The bytes that a text takes in a query.
pub open spec fn query_bytes(text: Seq<char>) -> nat
    decreases text.len(),
{
    if text.len() == 0 {
        0
    } else {
        query_bytes(text.drop_last()) + if escaped_in_query(text.last()) {
            3 * utf8_len(text.last())
        } else {
            1
        }
    }
}

/// The bytes that pairs take in a query, each with the mark between its two
/// texts and the mark in front of it.
pub open spec fn pairs_bytes(pairs: Seq<(Seq<char>, Seq<char>)>) -> nat
    decreases pairs.len(),
{
    if pairs.len() == 0 {
        0
    } else {
        pairs_bytes(pairs.drop_last()) + query_bytes(pairs.last().0) + query_bytes(pairs.last().1)
            + 2
    }
}

/// Whether an address can be counted up to its fragment, if it has one, after
/// its query has got these pairs; else up to the query that it gets.
pub open spec fn pairs_fit(text: Seq<char>, pairs: Seq<(Seq<char>, Seq<char>)>) -> bool {
    match parsed_url(text) {
        Ok(url) => {
            let kept = before(url, '#');
            let mark = before(kept, '?').len();
            if kept.len() < url.len() {
                // The first pair has no mark of its own behind a bare `?`, and
                // a query is begun even where there are no pairs.
                kept.len() + pairs_bytes(pairs) + (if mark == kept.len() && pairs.len() == 0 {
                    1int
                } else if mark + 1 == kept.len() && pairs.len() > 0 {
                    -1int
                } else {
                    0int
                }) <= MAX_URL_BYTES
            } else {
                mark < kept.len() || kept.len() <= MAX_URL_BYTES
            }
        },
        Err(_) => true,
    }
}

/// An address with pairs of a name and a value added to its query; nothing
/// where the text is not an address.
pub uninterp spec fn url_with_pairs(
    text: Seq<char>,
    pairs: Seq<(Seq<char>, Seq<char>)>,
) -> Option<Seq<char>>;

/// `append_pair` of `url::Url::query_pairs_mut`, in a row for all the pairs
/// (`extend_pairs`), on the address that the text is. The result is a function
/// of the text and the pairs; what it is for given ones is not stated. The
/// `url` crate panics where the place of the query that it begins, or of the
/// fragment that it puts back, cannot be counted in 32 bits.
#[verifier::external_body]
fn append_pairs(text: &str, pairs: &Vec<(String, String)>) -> (r: Option<String>)
    requires
        pairs_fit(text@, pair_views(pairs@)),
    ensures
        match r {
            Some(url) => url_with_pairs(text@, pair_views(pairs@)) == Some(url@),
            None => url_with_pairs(text@, pair_views(pairs@)) is None,
        },
{
    let mut url = url::Url::parse(text).ok()?;
    url.query_pairs_mut().extend_pairs(pairs.iter());
    Some(String::from(url))
}

fn find_mark(chars: &Vec<char>, mark: char) -> (r: usize)
    ensures
        r <= chars@.len(),
        before(chars@, mark) == chars@.take(r as int),
        r < chars@.len() ==> chars@[r as int] == mark,
{
    let mut i: usize = 0;
    assert(chars@.skip(0) =~= chars@);
    assert(chars@.take(0) + before(chars@.skip(0), mark) =~= before(chars@, mark));
    while i < chars.len() && chars[i] != mark
        invariant
            i <= chars@.len(),
            chars@.take(i as int) + before(chars@.skip(i as int), mark) == before(chars@, mark),
        decreases chars@.len() - i,
    {
        let ghost rest = chars@.skip(i as int);
        assert(rest.drop_first() =~= chars@.skip(i + 1));
        assert(chars@.take(i as int) + (seq![rest[0]] + before(chars@.skip(i + 1), mark))
            =~= chars@.take(i + 1) + before(chars@.skip(i + 1), mark));
        i += 1;
    }
    assert(before(chars@.skip(i as int), mark) =~= Seq::empty());
    assert(chars@.take(i as int) + Seq::<char>::empty() =~= chars@.take(i as int));
    i
}

/// The scheme of an address in its normal form.
pub fn url_scheme(text: &str) -> (r: String)
    ensures
        r@ == before(text@, ':'),
{
    let chars = chars_of(text);
    let colon: usize = find_mark(&chars, ':');
    assert(chars@.take(colon as int) =~= chars@.subrange(0, colon as int));
    slice_text(&chars, 0, colon)
}

fn utf8_len_of(c: char) -> (r: u128)
    ensures
        r == utf8_len(c),
        r <= 4,
{
    if c <= '\u{7f}' {
        1
    } else if c <= '\u{7ff}' {
        2
    } else if c <= '\u{ffff}' {
        3
    } else {
        4
    }
}

fn count_path_bytes(chars: &Vec<char>, opaque: bool) -> (r: u128)
    ensures
        r == path_bytes(chars@, opaque),
        r <= 12 * chars@.len(),
{
    let mut count: u128 = 0;
    let mut i: usize = 0;
    assert(chars@.take(0) =~= Seq::empty());
    while i < chars.len()
        invariant
            i <= chars@.len(),
            count == path_bytes(chars@.take(i as int), opaque),
            count <= 12 * i,
        decreases chars@.len() - i,
    {
        let c = chars[i];
        assert(chars@.take(i + 1).drop_last() =~= chars@.take(i as int));
        let escaped = c < ' ' || c > '~' || !opaque && (c == ' ' || c == '"' || c == '<' || c == '>'
            || c == '`' || c == '#' || c == '?' || c == '{' || c == '}');
        count = count + if escaped {
            3 * utf8_len_of(c)
        } else {
            1
        };
        i += 1;
    }
    assert(chars@.take(i as int) =~= chars@);
    count
}

fn count_query_bytes(text: &str) -> (r: u128)
    ensures
        r == query_bytes(text@),
        r <= 12 * usize::MAX,
{
    let chars = chars_of(text);
    let mut count: u128 = 0;
    let mut i: usize = 0;
    assert(chars@.take(0) =~= Seq::empty());
    while i < chars.len()
        invariant
            i <= chars@.len(),
            count == query_bytes(chars@.take(i as int)),
            count <= 12 * i,
        decreases chars@.len() - i,
    {
        let c = chars[i];
        assert(chars@.take(i + 1).drop_last() =~= chars@.take(i as int));
        let plain = 'a' <= c && c <= 'z' || 'A' <= c && c <= 'Z' || '0' <= c && c <= '9' || c == '*'
            || c == '-' || c == '.' || c == '_' || c == ' ';
        count = count + if plain {
            1
        } else {
            3 * utf8_len_of(c)
        };
        i += 1;
    }
    assert(chars@.take(i as int) =~= chars@);
    count
}

/// `path` without the slashes at its end.
pub open spec fn without_slashes(path: Seq<char>) -> Seq<char>
    decreases path.len(),
{
    if path.len() > 0 && path.last() == '/' {
        without_slashes(path.drop_last())
    } else {
        path
    }
}

/// The path of a service below the path of a base address.
pub fn endpoint_path(path: &str, suffix: &str) -> (r: String)
    ensures
        r@ == without_slashes(path@) + suffix@,
{
    let chars = chars_of(path);
    let mut n: usize = chars.len();
    assert(chars@.take(n as int) =~= chars@);
    while n > 0 && chars[n - 1] == '/'
        invariant
            n <= chars@.len(),
            without_slashes(chars@.take(n as int)) == without_slashes(path@),
        decreases n,
    {
        assert(chars@.take(n as int).drop_last() =~= chars@.take(n - 1));
        n -= 1;
    }
    let mut full = slice_text(&chars, 0, n);
    full.append(suffix);
    full
}

/// An address with neither query nor fragment.
pub open spec fn bare(text: Seq<char>) -> Result<Seq<char>, UrlFault> {
    match url_without_query(text) {
        None => Err(UrlFault::NotAUrl),
        Some(url) => match url_without_fragment(url) {
            None => Err(UrlFault::NotAUrl),
            Some(rest) => Ok(rest),
        },
    }
}

/// The address with neither query nor fragment.
pub fn bare_url(text: &str) -> (r: Result<String, UrlFault>)
    ensures
        match r {
            Ok(url) => {
                &&& bare(text@) == Ok::<Seq<char>, UrlFault>(url@)
                &&& !url@.contains('?')
                &&& !url@.contains('#')
            },
            Err(fault) => bare(text@) == Err::<Seq<char>, UrlFault>(fault),
        },
{
    match drop_query(text) {
        None => Err(UrlFault::NotAUrl),
        Some(url) => match drop_fragment(url.as_str()) {
            None => Err(UrlFault::NotAUrl),
            Some(rest) => Ok(rest),
        },
    }
}

fn fits_path(text: &str, path: &str) -> (r: bool)
    ensures
        r == path_fits(text@, path@),
{
    match (parse_url(text), path_of(text)) {
        (Ok(url), Some(gone)) => {
            let whole = chars_of(url.as_str());
            let fresh = chars_of(path);
            let colon: usize = find_mark(&whole, ':');
            let opaque = !(colon < whole.len() && colon + 1 < whole.len() && whole[colon + 1]
                == '/');
            assert(opaque == is_opaque(url@));
            let there = fresh.len() > 0 && fresh[0] == '/';
            let slash: u128 = if opaque {
                if there {
                    2
                } else {
                    0
                }
            } else if there {
                0
            } else {
                1
            };
            let grown: u128 = whole.len() as u128 + count_path_bytes(&fresh, opaque) + slash;
            whole.len() <= MAX_URL_BYTES && grown <= MAX_URL_BYTES as u128 + char_len(
                gone.as_str(),
            ) as u128
        },
        _ => true,
    }
}

/// The address of a service below a base address.
pub open spec fn endpoint(base: Seq<char>, suffix: Seq<char>) -> Result<Seq<char>, UrlFault> {
    match url_path(base) {
        None => Err(UrlFault::NotAUrl),
        Some(path) => match bare(base) {
            Err(fault) => Err(fault),
            Ok(stripped) => {
                let full = without_slashes(path) + suffix;
                if !path_fits(stripped, full) {
                    Err(UrlFault::TooLong)
                } else {
                    match url_with_path(stripped, full) {
                        None => Err(UrlFault::NotAUrl),
                        Some(url) => Ok(url),
                    }
                }
            },
        },
    }
}

proof fn without_slashes_is_a_beginning(path: Seq<char>)
    ensures
        without_slashes(path).len() <= path.len(),
        without_slashes(path) == path.take(without_slashes(path).len() as int),
    decreases path.len(),
{
    if path.len() > 0 && path.last() == '/' {
        without_slashes_is_a_beginning(path.drop_last());
        assert(path.drop_last().take(without_slashes(path).len() as int) =~= path.take(
            without_slashes(path).len() as int,
        ));
    } else {
        assert(path.take(path.len() as int) =~= path);
    }
}

/// The address of a service below a base address: the path with `suffix` at
/// its end, and neither query nor fragment.
pub fn endpoint_url(base: &str, suffix: &str) -> (r: Result<String, UrlFault>)
    ensures
        match r {
            Ok(url) => {
                &&& endpoint(base@, suffix@) == Ok::<Seq<char>, UrlFault>(url@)
                &&& !suffix@.contains('?') && !suffix@.contains('#') ==> !url@.contains('?')
                    && !url@.contains('#')
            },
            Err(fault) => endpoint(base@, suffix@) == Err::<Seq<char>, UrlFault>(fault),
        },
{
    let path = match path_of(base) {
        None => {
            return Err(UrlFault::NotAUrl);
        },
        Some(path) => path,
    };
    let stripped = match bare_url(base) {
        Err(fault) => {
            return Err(fault);
        },
        Ok(stripped) => stripped,
    };
    let full = endpoint_path(path.as_str(), suffix);
    if !fits_path(stripped.as_str(), full.as_str()) {
        return Err(UrlFault::TooLong);
    }
    proof {
        without_slashes_is_a_beginning(path@);
        let kept = without_slashes(path@);
        assert forall|c: char| !path@.contains(c) && !suffix@.contains(c) implies !(
        #[trigger] full@.contains(c)) by {
            if full@.contains(c) {
                let i = choose|i: int| 0 <= i < full@.len() && full@[i] == c;
                if i < kept.len() {
                    assert(path@[i] == c);
                } else {
                    assert(suffix@[i - kept.len()] == c);
                }
            }
        }
    }
    match set_path(stripped.as_str(), full.as_str()) {
        None => Err(UrlFault::NotAUrl),
        Some(url) => Ok(url),
    }
}

/// An address with pairs added to its query.
pub open spec fn queried(base: Seq<char>, pairs: Seq<(Seq<char>, Seq<char>)>) -> Result<
    Seq<char>,
    UrlFault,
> {
    if !pairs_fit(base, pairs) {
        Err(UrlFault::TooLong)
    } else {
        match url_with_pairs(base, pairs) {
            None => Err(UrlFault::NotAUrl),
            Some(url) => Ok(url),
        }
    }
}

proof fn pairs_bytes_rise(pairs: Seq<(Seq<char>, Seq<char>)>, i: int)
    requires
        0 <= i <= pairs.len(),
    ensures
        pairs_bytes(pairs.take(i)) <= pairs_bytes(pairs),
    decreases pairs.len(),
{
    if i == pairs.len() {
        assert(pairs.take(i) =~= pairs);
    } else {
        pairs_bytes_rise(pairs.drop_last(), i);
        assert(pairs.drop_last().take(i) =~= pairs.take(i));
    }
}

/// The bytes that the pairs take in a query, or nothing where they are more
/// than an address can have.
fn count_pairs_bytes(pairs: &Vec<(String, String)>) -> (r: Option<u128>)
    ensures
        match r {
            Some(count) => count == pairs_bytes(pair_views(pairs@)) && count <= 2
                * MAX_URL_BYTES,
            None => pairs_bytes(pair_views(pairs@)) > 2 * MAX_URL_BYTES,
        },
{
    let ghost all = pair_views(pairs@);
    let mut count: u128 = 0;
    let mut i: usize = 0;
    assert(all.take(0) =~= Seq::empty());
    while i < pairs.len()
        invariant
            all == pair_views(pairs@),
            i <= pairs@.len(),
            count == pairs_bytes(all.take(i as int)),
            count <= 2 * MAX_URL_BYTES,
        decreases pairs@.len() - i,
    {
        let name: u128 = count_query_bytes(pairs[i].0.as_str());
        let value: u128 = count_query_bytes(pairs[i].1.as_str());
        proof {
            assert(all.take(i + 1).drop_last() =~= all.take(i as int));
            assert(all.take(i + 1).last() == all[i as int]);
            pairs_bytes_rise(all, i + 1);
        }
        count = count + name + value + 2;
        if count > 2 * MAX_URL_BYTES as u128 {
            return None;
        }
        i += 1;
    }
    assert(all.take(i as int) =~= all);
    Some(count)
}

fn fits_pairs(text: &str, pairs: &Vec<(String, String)>) -> (r: bool)
    ensures
        r == pairs_fit(text@, pair_views(pairs@)),
{
    let url = match parse_url(text) {
        Ok(url) => url,
        Err(_) => {
            return true;
        },
    };
    let mut chars = chars_of(url.as_str());
    let whole: usize = chars.len();
    let kept: usize = find_mark(&chars, '#');
    chars.truncate(kept);
    let mark: usize = find_mark(&chars, '?');
    if kept < whole {
        match count_pairs_bytes(pairs) {
            None => false,
            Some(count) => {
                let none = pairs.len() == 0;
                let more: u128 = if mark == kept && none {
                    2
                } else if mark < kept && mark + 1 == kept && !none {
                    0
                } else {
                    1
                };
                kept as u128 + count + more <= MAX_URL_BYTES as u128 + 1
            },
        }
    } else {
        mark < kept || kept <= MAX_URL_BYTES
    }
}

/// The address with the pairs added to its query, in order.
pub fn query_url(base: &str, pairs: &Vec<(String, String)>) -> (r: Result<String, UrlFault>)
    ensures
        match r {
            Ok(url) => queried(base@, pair_views(pairs@)) == Ok::<Seq<char>, UrlFault>(url@),
            Err(fault) => queried(base@, pair_views(pairs@)) == Err::<Seq<char>, UrlFault>(fault),
        },
{
    if !fits_pairs(base, pairs) {
        return Err(UrlFault::TooLong);
    }
    match append_pairs(base, pairs) {
        None => Err(UrlFault::NotAUrl),
        Some(url) => Ok(url),
    }
}

/// What stands before a mark is all up to its first place, and all of a text
/// without one.
pub proof fn marks_end_what_is_before(a: Seq<char>, mark: char, b: Seq<char>)
    requires
        forall|k: int| 0 <= k < a.len() ==> #[trigger] a[k] != mark,
    ensures
        before(a.push(mark) + b, mark) == a,
        before(a, mark) == a,
    decreases a.len(),
{
    let whole = a.push(mark) + b;
    if a.len() == 0 {
        assert(whole[0] == mark);
        assert(before(whole, mark) =~= a);
        assert(before(a, mark) =~= a);
    } else {
        let rest = a.drop_first();
        assert(a[0] != mark);
        assert forall|k: int| 0 <= k < rest.len() implies #[trigger] rest[k] != mark by {
            assert(rest[k] == a[k + 1]);
        }
        marks_end_what_is_before(rest, mark, b);
        assert(whole.drop_first() =~= rest.push(mark) + b);
        assert(whole[0] == a[0]);
        assert(seq![a[0]] + rest =~= a);
    }
}

/// Slashes at the end of a path are all taken off, and no others.
pub proof fn slashes_at_the_end_are_taken_off(path: Seq<char>)
    ensures
        without_slashes(path.push('/')) == without_slashes(path),
        path.len() == 0 || path.last() != '/' ==> without_slashes(path) == path,
        without_slashes(path).len() > 0 ==> without_slashes(path).last() != '/',
        without_slashes(path).len() <= path.len(),
        without_slashes(path) == path.take(without_slashes(path).len() as int),
        forall|k: int| without_slashes(path).len() <= k < path.len() ==> #[trigger] path[k] == '/',
    decreases path.len(),
{
    assert(path.push('/').drop_last() =~= path);
    if path.len() > 0 && path.last() == '/' {
        let shorter = path.drop_last();
        slashes_at_the_end_are_taken_off(shorter);
        let kept = without_slashes(path);
        assert(shorter.take(kept.len() as int) =~= path.take(kept.len() as int));
        assert forall|k: int| kept.len() <= k < path.len() implies #[trigger] path[k] == '/' by {
            if k < shorter.len() {
                assert(path[k] == shorter[k]);
            }
        }
    } else {
        assert(path.take(path.len() as int) =~= path);
    }
}

/// An address is made of the base without its query and its fragment, and the
/// suffix behind its path without slashes at the end; one that cannot be made is
/// refused.
pub proof fn suffixes_stand_behind_the_path(base: Seq<char>, suffix: Seq<char>)
    ensures
        endpoint(base, suffix) matches Ok(url) ==> {
            let stripped = url_without_fragment(url_without_query(base)->0)->0;
            &&& url_path(base) is Some
            &&& url_without_query(base) is Some
            &&& url_without_fragment(url_without_query(base)->0) is Some
            &&& url_with_path(stripped, without_slashes(url_path(base)->0) + suffix) == Some(url)
        },
        url_path(base) is None ==> endpoint(base, suffix) == Err::<Seq<char>, UrlFault>(
            UrlFault::NotAUrl,
        ),
        endpoint(base, suffix) == Err::<Seq<char>, UrlFault>(UrlFault::TooLong) ==> !path_fits(
            bare(base)->Ok_0,
            without_slashes(url_path(base)->0) + suffix,
        ),
{
}

/// Characters take as many bytes as their code needs, and what is escaped three
/// for each of them.
pub proof fn bytes_are_counted_one_by_one(a: Seq<char>, c: char, opaque: bool)
    ensures
        1 <= utf8_len(c) <= 4,
        c as u32 <= 0x7f <==> utf8_len(c) == 1,
        0x80 <= c as u32 <= 0x7ff <==> utf8_len(c) == 2,
        0x800 <= c as u32 <= 0xffff <==> utf8_len(c) == 3,
        escaped_in_path(c, opaque) ==> path_bytes(a.push(c), opaque) == path_bytes(a, opaque) + 3
            * utf8_len(c),
        !escaped_in_path(c, opaque) ==> path_bytes(a.push(c), opaque) == path_bytes(a, opaque) + 1,
        escaped_in_query(c) ==> query_bytes(a.push(c)) == query_bytes(a) + 3 * utf8_len(c),
        !escaped_in_query(c) ==> query_bytes(a.push(c)) == query_bytes(a) + 1,
        path_bytes(Seq::empty(), opaque) == 0,
        query_bytes(Seq::empty()) == 0,
{
    assert(a.push(c).drop_last() =~= a);
}

/// In a path what is no printable Latin character is escaped, and so are blanks,
/// marks and braces where the address has a hierarchy; in a query all but
/// letters, digits, blanks and four marks.
pub proof fn escaped_characters_are_listed(c: char, opaque: bool)
    ensures
        escaped_in_path(c, true) <==> (c as u32) < 0x20 || c as u32 > 0x7e,
        escaped_in_path(c, false) <==> escaped_in_path(c, true) || c == ' ' || c == '"' || c == '<'
            || c == '>' || c == '`' || c == '#' || c == '?' || c == '{' || c == '}',
        !escaped_in_query(c) <==> ('a' <= c && c <= 'z') || ('A' <= c && c <= 'Z') || ('0' <= c && c
            <= '9') || c == '*' || c == '-' || c == '.' || c == '_' || c == ' ',
{
}

/// A path in an address with a hierarchy begins with a slash, which counts where
/// it is not there yet; in any other address a slash at its beginning is
/// escaped, which takes two bytes more.
pub proof fn paths_begin_with_a_slash(path: Seq<char>)
    ensures
        slash_bytes(seq!['/'] + path, false) == 0,
        slash_bytes(seq!['/'] + path, true) == 2,
        path.len() == 0 || path[0] != '/' ==> slash_bytes(path, false) == 1 && slash_bytes(
            path,
            true,
        ) == 0,
{
    assert((seq!['/'] + path)[0] == '/');
}

/// Each pair of a query counts with its name, its value and a mark for each.
pub proof fn pairs_are_counted_one_by_one(
    pairs: Seq<(Seq<char>, Seq<char>)>,
    name: Seq<char>,
    value: Seq<char>,
)
    ensures
        pairs_bytes(pairs.push((name, value))) == pairs_bytes(pairs) + query_bytes(name)
            + query_bytes(value) + 2,
        pairs_bytes(Seq::empty()) == 0,
{
    assert(pairs.push((name, value)).drop_last() =~= pairs);
}

/// An address has a hierarchy exactly where a slash follows its scheme.
pub proof fn slashes_follow_the_scheme(scheme: Seq<char>, rest: Seq<char>)
    requires
        forall|k: int| 0 <= k < scheme.len() ==> #[trigger] scheme[k] != ':',
    ensures
        is_opaque(scheme.push(':') + rest) <==> rest.len() == 0 || rest[0] != '/',
{
    marks_end_what_is_before(scheme, ':', rest);
    let url = scheme.push(':') + rest;
    if rest.len() > 0 {
        assert(url[scheme.len() as int + 1] == rest[0]);
    }
}

} // verus!
