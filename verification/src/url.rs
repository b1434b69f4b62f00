use vstd::prelude::*;

verus! {

/// The scheme separator that marks a string as already carrying a scheme.
pub open spec fn scheme_separator() -> Seq<char> {
    seq![':', '/', '/']
}

/// Whether `pattern` occurs in `s` at some position.
pub open spec fn contains_at(s: Seq<char>, pattern: Seq<char>, i: int) -> bool {
    0 <= i && i + pattern.len() <= s.len() && s.subrange(i, i + pattern.len()) == pattern
}

pub open spec fn seq_contains(s: Seq<char>, pattern: Seq<char>) -> bool {
    exists|i: int| contains_at(s, pattern, i)
}

/// What `format_url` turns a string into.
pub open spec fn spec_format_url(url: Seq<char>) -> Seq<char> {
    if seq_contains(url, scheme_separator()) {
        url
    } else {
        seq!['h', 't', 't', 'p', ':', '/', '/'] + url
    }
}

/// Whether `s` holds "://" at position `i` (which must leave room for it).
fn has_separator_at(s: &Vec<char>, i: usize) -> (b: bool)
    requires
        i + 3 <= s.len(),
    ensures
        b == contains_at(s@, scheme_separator(), i as int),
{
    let r = s[i] == ':' && s[i + 1] == '/' && s[i + 2] == '/';
    assert(r == (s@.subrange(i as int, i + 3) =~= scheme_separator()));
    r
}

/// Whether "://" occurs anywhere in `s`.
fn has_scheme_separator(s: &Vec<char>) -> (b: bool)
    ensures
        b == seq_contains(s@, scheme_separator()),
{
    let n = s.len();
    if n < 3 {
        return false;
    }
    let mut i: usize = 0;
    while i < n - 2
        invariant
            n == s@.len(),
            n >= 3,
            i <= n - 2,
            forall|j: int| 0 <= j < i ==> !contains_at(s@, scheme_separator(), j),
        decreases n - i,
    {
        if has_separator_at(s, i) {
            return true;
        }
        i = i + 1;
    }
    false
}

/// Gives `url` a scheme when it has none: a string that already holds "://"
/// comes back unchanged, any other gets "http://" in front of it.
pub fn format_url(url: String) -> (res: String)
    ensures
        res@ == spec_format_url(url@),
{
    let chars = crate::text::chars_of(url.as_str());
    if has_scheme_separator(&chars) {
        url
    } else {
        let mut res = "http://".to_owned();
        proof {
            reveal_strlit("http://");
        }
        res.append(url.as_str());
        res
    }
}

/// Every formatted URL carries a scheme separator.
pub proof fn lemma_format_url_has_scheme(url: Seq<char>)
    ensures
        seq_contains(spec_format_url(url), scheme_separator()),
{
    if !seq_contains(url, scheme_separator()) {
        let r = spec_format_url(url);
        assert(r.subrange(4, 7) =~= scheme_separator());
        assert(contains_at(r, scheme_separator(), 4));
    }
}

/// Formatting a URL twice gives what formatting it once gives.
pub proof fn lemma_format_url_idempotent(url: Seq<char>)
    ensures
        spec_format_url(spec_format_url(url)) == spec_format_url(url),
{
    lemma_format_url_has_scheme(url);
}

/// A URL that already names a scheme is left as it is; any other URL keeps
/// its text after the "http://" that is put in front of it.
pub proof fn lemma_format_url_keeps_text(url: Seq<char>)
    ensures
        seq_contains(url, scheme_separator()) ==> spec_format_url(url) == url,
        !seq_contains(url, scheme_separator()) ==> spec_format_url(url).len() == url.len() + 7
            && spec_format_url(url).subrange(7, url.len() + 7int) == url,
{
    if !seq_contains(url, scheme_separator()) {
        assert(spec_format_url(url).subrange(7, url.len() + 7int) =~= url);
    }
}

/// A URL that holds "://" anywhere comes back exactly as it was; any other
/// URL comes back as exactly "http://" followed by the URL.
pub proof fn lemma_format_url_result(url: Seq<char>)
    ensures
        (exists|i: int|
            0 <= i && i + 3 <= url.len() && #[trigger] url.subrange(i, i + 3) == seq![':', '/', '/'])
            ==> spec_format_url(url) == url,
        !(exists|i: int|
            0 <= i && i + 3 <= url.len() && #[trigger] url.subrange(i, i + 3) == seq![':', '/', '/'])
            ==> spec_format_url(url) == seq!['h', 't', 't', 'p', ':', '/', '/'] + url,
{
    if exists|i: int|
        0 <= i && i + 3 <= url.len() && #[trigger] url.subrange(i, i + 3) == seq![':', '/', '/'] {
        let i = choose|i: int|
            0 <= i && i + 3 <= url.len() && #[trigger] url.subrange(i, i + 3) == seq![':', '/', '/'];
        assert(contains_at(url, scheme_separator(), i));
    } else {
        assert forall|i: int| !contains_at(url, scheme_separator(), i) by {
            if contains_at(url, scheme_separator(), i) {
                assert(url.subrange(i, i + 3) == seq![':', '/', '/']);
            }
        }
    }
}

} // verus!
