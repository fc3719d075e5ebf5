use vstd::prelude::*;
use vstd::string::*;

use crate::text::{chars_of, push_chars};

verus! {

/// Number of characters in a generated base name.
pub const TOKEN_LEN: usize = 9;

/// An ASCII letter or digit.
pub open spec fn is_alphanumeric(c: char) -> bool {
    ('a' as u32 <= c as u32 <= 'z' as u32) || ('A' as u32 <= c as u32 <= 'Z' as u32) || ('0' as u32
        <= c as u32 <= '9' as u32)
}

/// A generated base name: `TOKEN_LEN` ASCII letters and digits.
pub open spec fn is_token(s: Seq<char>) -> bool {
    s.len() == TOKEN_LEN && forall|i: int| 0 <= i < s.len() ==> is_alphanumeric(#[trigger] s[i])
}

/// The first place from `from` on, and before `to`, where `text` holds
/// `mark` or `other`; `to` where it holds neither.
pub open spec fn first_of(text: Seq<char>, from: int, to: int, mark: char, other: char) -> int
    decreases to - from,
{
    if from >= to {
        to
    } else if text[from] == mark || text[from] == other {
        from
    } else {
        first_of(text, from + 1, to, mark, other)
    }
}

/// The place behind the last `mark` that `text` holds from `from` on and
/// before `to`; `from` where it holds none.
pub open spec fn after_last(text: Seq<char>, from: int, to: int, mark: char) -> int
    decreases to - from,
{
    if from >= to {
        from
    } else if text[to - 1] == mark {
        to
    } else {
        after_last(text, from, to - 1, mark)
    }
}

/// Where the URL ends before its query and fragment: at the first `?` or
/// `#`, or at its end.
pub open spec fn url_end(url: Seq<char>) -> int {
    first_of(url, 0, url.len() as int, '?', '#')
}

/// Where the path of the URL begins. A URL whose first colon is followed
/// by two slashes names a host behind them, and its path begins at the
/// next slash, or is empty; any other text is a path from its beginning.
pub open spec fn url_path_start(url: Seq<char>) -> int {
    let end = url_end(url);
    let colon = first_of(url, 0, end, ':', ':');
    if colon + 2 < end && url[colon + 1] == '/' && url[colon + 2] == '/' {
        first_of(url, colon + 3, end, '/', '/')
    } else {
        0
    }
}

/// Where the last segment of the URL's path begins: behind the last slash
/// of the path, or where the path begins.
pub open spec fn url_segment_start(url: Seq<char>) -> int {
    after_last(url, url_path_start(url), url_end(url), '/')
}

/// The file extension of the URL's path: what follows the last dot of the
/// path's last segment. A segment without a dot has none, nor has one whose
/// only dot is its first character, nor the segment `..`.
pub open spec fn url_extension(url: Seq<char>) -> Option<Seq<char>> {
    let end = url_end(url);
    let segment = url_segment_start(url);
    let dot = after_last(url, segment, end, '.');
    if dot <= segment + 1 {
        None
    } else if end - segment == 2 && url[segment] == '.' {
        None
    } else {
        Some(url.subrange(dot, end))
    }
}

/// The name under which a remote image is stored: the token, then a dot
/// and the extension where there is one.
pub open spec fn remote_name(token: Seq<char>, ext: Option<Seq<char>>) -> Seq<char> {
    match ext {
        Some(e) => token + seq!['.'] + e,
        None => token,
    }
}

/// Whether `name` may be given to the image fetched from `url`: a token,
/// followed by a dot and the extension of the URL's path where it has one.
pub open spec fn is_remote_name_for(name: Seq<char>, url: Seq<char>) -> bool {
    exists|token: Seq<char>| is_token(token) && name == #[trigger] remote_name(
        token,
        url_extension(url),
    )
}

/// The characters of an optional string.
pub open spec fn option_text(s: Option<String>) -> Option<Seq<char>> {
    match s {
        Some(t) => Some(t@),
        None => None,
    }
}

/// Draws one character with `rand::Rng::sample` from `rand::thread_rng()`
/// over `rand::distributions::Alphanumeric`. Which one comes is left open;
/// the distribution yields only ASCII letters and digits.
#[verifier::external_body]
fn sample_alphanumeric() -> (c: char)
    ensures
        is_alphanumeric(c),
{
    rand::Rng::sample(&mut rand::thread_rng(), rand::distributions::Alphanumeric)
}

/// Computes `first_of`.
fn find_first(text: &Vec<char>, from: usize, to: usize, mark: char, other: char) -> (place: usize)
    requires
        from <= to <= text@.len(),
    ensures
        place == first_of(text@, from as int, to as int, mark, other),
        from <= place <= to,
{
    let mut i: usize = from;
    while i < to && text[i] != mark && text[i] != other
        invariant
            from <= i <= to <= text@.len(),
            first_of(text@, i as int, to as int, mark, other) == first_of(
                text@,
                from as int,
                to as int,
                mark,
                other,
            ),
        decreases to - i,
    {
        i += 1;
    }
    i
}

/// Computes `after_last`.
fn find_after_last(text: &Vec<char>, from: usize, to: usize, mark: char) -> (place: usize)
    requires
        from <= to <= text@.len(),
    ensures
        place == after_last(text@, from as int, to as int, mark),
        from <= place <= to,
{
    let mut i: usize = to;
    while i > from && text[i - 1] != mark
        invariant
            from <= i <= to <= text@.len(),
            after_last(text@, from as int, i as int, mark) == after_last(
                text@,
                from as int,
                to as int,
                mark,
            ),
        decreases i - from,
    {
        i -= 1;
    }
    i
}

/// The file extension of the path of `url`, as `url_extension` has it.
pub fn extension_of(url: &str) -> (ext: Option<String>)
    ensures
        option_text(ext) == url_extension(url@),
{
    let text = chars_of(url);
    let end = find_first(&text, 0, text.len(), '?', '#');
    let colon = find_first(&text, 0, end, ':', ':');
    let start = if colon < end && end - colon > 2 && text[colon + 1] == '/' && text[colon + 2]
        == '/' {
        find_first(&text, colon + 3, end, '/', '/')
    } else {
        0
    };
    let segment = find_after_last(&text, start, end, '/');
    let dot = find_after_last(&text, segment, end, '.');
    if dot - segment <= 1 {
        None
    } else if end - segment == 2 && text[segment] == '.' {
        None
    } else {
        let mut ext = String::new();
        push_chars(&mut ext, &text, dot, end);
        assert(ext@ =~= text@.subrange(dot as int, end as int));
        Some(ext)
    }
}

/// A fresh random base name.
pub fn random_token() -> (token: String)
    ensures
        is_token(token@),
{
    let mut token = String::new();
    let mut n: usize = 0;
    while n < TOKEN_LEN
        invariant
            n <= TOKEN_LEN,
            token@.len() == n,
            forall|i: int| 0 <= i < token@.len() ==> is_alphanumeric(#[trigger] token@[i]),
        decreases TOKEN_LEN - n,
    {
        let c = sample_alphanumeric();
        token.push(c);
        n += 1;
    }
    token
}

/// Puts a stored name together from a token and an extension.
pub fn compose_name(token: String, ext: Option<String>) -> (name: String)
    ensures
        name@ == remote_name(token@, option_text(ext)),
{
    match ext {
        Some(e) => {
            let mut name = token;
            name.push('.');
            name.append(e.as_str());
            assert(name@ =~= token@ + seq!['.'] + e@);
            name
        },
        None => token,
    }
}

/// The name under which the image fetched from `url` is stored: a fresh
/// token, with the extension of the URL's path where it has one.
pub fn resolve_remote_name(url: &str) -> (name: String)
    ensures
        is_remote_name_for(name@, url@),
{
    let token = random_token();
    let ext = extension_of(url);
    let ghost t = token@;
    let name = compose_name(token, ext);
    assert(name@ == remote_name(t, url_extension(url@)));
    name
}

/// What `first_of` finds lies between its bounds, and what `after_last`
/// finds as well; no `mark` stands behind the place that `after_last` finds.
pub proof fn lemma_search_bounds(text: Seq<char>, from: int, to: int, mark: char, other: char)
    requires
        0 <= from <= to <= text.len(),
    ensures
        from <= first_of(text, from, to, mark, other) <= to,
        from <= after_last(text, from, to, mark) <= to,
        forall|i: int| after_last(text, from, to, mark) <= i < to ==> text[i] != mark,
        forall|i: int|
            from <= i < first_of(text, from, to, mark, other) ==> text[i] != mark && text[i]
                != other,
    decreases to - from,
{
    if from < to {
        lemma_search_bounds(text, from + 1, to, mark, other);
        lemma_search_bounds(text, from, to - 1, mark, other);
    }
}

/// The extension of a URL holds no dot, no slash, no `?` and no `#`, and
/// a remote name begins with its token: a stored name never leaves the
/// directory it is stored in, whatever the URL.
pub proof fn lemma_remote_name_is_plain(name: Seq<char>, url: Seq<char>)
    requires
        is_remote_name_for(name, url),
    ensures
        name.len() >= TOKEN_LEN,
        is_token(name.subrange(0, TOKEN_LEN as int)),
        forall|i: int| 0 <= i < name.len() ==> name[i] != '/' && name[i] != '?' && name[i] != '#',
        url_extension(url) matches Some(e) ==> !e.contains('.') && name == name.subrange(
            0,
            TOKEN_LEN as int,
        ) + seq!['.'] + e,
        url_extension(url) is None ==> name.len() == TOKEN_LEN,
{
    let token = choose|token: Seq<char>|
        is_token(token) && name == #[trigger] remote_name(token, url_extension(url));
    assert(name.subrange(0, TOKEN_LEN as int) =~= token);
    let end = url_end(url);
    lemma_search_bounds(url, 0, url.len() as int, '?', '#');
    lemma_search_bounds(url, 0, end, ':', ':');
    let colon = first_of(url, 0, end, ':', ':');
    if colon + 2 < end {
        lemma_search_bounds(url, colon + 3, end, '/', '/');
    }
    let start = url_path_start(url);
    lemma_search_bounds(url, start, end, '/', '/');
    let segment = url_segment_start(url);
    lemma_search_bounds(url, segment, end, '.', '.');
    let dot = after_last(url, segment, end, '.');
    assert forall|i: int| 0 <= i < name.len() implies name[i] != '/' && name[i] != '?' && name[i]
        != '#' by {
        if i < TOKEN_LEN {
            assert(is_alphanumeric(token[i]));
        } else if i > TOKEN_LEN {
            let e = url_extension(url)->0;
            assert(name[i] == e[i - TOKEN_LEN - 1]);
            assert(e[i - TOKEN_LEN - 1] == url[dot + i - TOKEN_LEN - 1]);
        }
    }
    if let Some(e) = url_extension(url) {
        assert forall|i: int| 0 <= i < e.len() implies e[i] != '.' by {
            assert(e[i] == url[dot + i]);
        }
    }
}

} // verus!
