use vstd::prelude::*;

verus! {

/// What percent-decoding a URL gives: the decoded text, or `None` where the
/// decoded bytes are not UTF-8.
pub uninterp spec fn url_decoded(s: Seq<char>) -> Option<Seq<char>>;

/// Relies on urlencoding::decode: its result depends on the text alone, and
/// text without a `%` comes back unchanged.
#[verifier::external_body]
fn percent_decode(s: &str) -> (r: Option<String>)
    ensures
        r is Some <==> url_decoded(s@) is Some,
        r is Some ==> url_decoded(s@) == Some(r.unwrap()@),
        !s@.contains('%') ==> r is Some && r.unwrap()@ == s@,
{
    match urlencoding::decode(s) {
        Ok(d) => Some(d.into_owned()),
        Err(_) => None,
    }
}

/// Position of the last `c` in `s`, or -1.
pub open spec fn last_pos(s: Seq<char>, c: char) -> int
    decreases s.len(),
{
    if s.len() == 0 {
        -1
    } else if s.last() == c {
        s.len() - 1
    } else {
        last_pos(s.drop_last(), c)
    }
}

/// The file name that a decoded URL names: what follows its last `=`, else
/// what follows its last `/`, else the whole text.
pub open spec fn name_in_url(d: Seq<char>) -> Seq<char> {
    if last_pos(d, '=') >= 0 {
        d.subrange(last_pos(d, '=') + 1, d.len() as int)
    } else {
        d.subrange(last_pos(d, '/') + 1, d.len() as int)
    }
}

/// The name under which a downloaded artifact is reported: the file name in
/// the decoded URL, or `None` where the URL does not decode.
pub open spec fn source_name_spec(url: Seq<char>) -> Option<Seq<char>> {
    match url_decoded(url) {
        Some(d) => Some(name_in_url(d)),
        None => None,
    }
}

/// The text of an optional string.
pub open spec fn opt_view(o: Option<String>) -> Option<Seq<char>> {
    match o {
        Some(s) => Some(s@),
        None => None,
    }
}

/// The name under which a downloaded artifact is stored: `copy_to` where the
/// record gives one, else the source name.
pub open spec fn artifact_name_spec(url: Seq<char>, copy_to: Option<Seq<char>>) -> Option<Seq<char>> {
    match copy_to {
        Some(c) => Some(c),
        None => source_name_spec(url),
    }
}

proof fn lemma_last_pos_bounds(s: Seq<char>, c: char)
    ensures
        -1 <= last_pos(s, c) < s.len(),
        last_pos(s, c) >= 0 ==> s[last_pos(s, c)] == c,
    decreases s.len(),
{
    if s.len() > 0 && s.last() != c {
        lemma_last_pos_bounds(s.drop_last(), c);
    }
}

/// Position of the last `c` in `s`, or -1.
fn last_index_of(s: &str, c: char) -> (r: Option<usize>)
    ensures
        match r {
            Some(p) => last_pos(s@, c) == p,
            None => last_pos(s@, c) == -1,
        },
{
    let n = s.unicode_len();
    let mut found: Option<usize> = None;
    let mut i: usize = 0;
    while i < n
        invariant
            n == s@.len(),
            i <= n,
            match found {
                Some(p) => last_pos(s@.subrange(0, i as int), c) == p,
                None => last_pos(s@.subrange(0, i as int), c) == -1,
            },
        decreases n - i,
    {
        proof {
            assert(s@.subrange(0, i + 1).drop_last() =~= s@.subrange(0, i as int));
        }
        if s.get_char(i) == c {
            found = Some(i);
        }
        i = i + 1;
    }
    proof {
        assert(s@.subrange(0, n as int) =~= s@);
    }
    found
}

/// The file name that a decoded URL names.
pub fn name_from_decoded(d: &str) -> (r: String)
    ensures
        r@ == name_in_url(d@),
{
    proof {
        lemma_last_pos_bounds(d@, '=');
        lemma_last_pos_bounds(d@, '/');
    }
    let n = d.unicode_len();
    let start: usize = match last_index_of(d, '=') {
        Some(p) => p + 1,
        None => match last_index_of(d, '/') {
            Some(p) => p + 1,
            None => 0,
        },
    };
    d.substring_char(start, n).to_string()
}

/// The name under which a download from `url` is reported, or `None` where
/// the URL does not percent-decode to UTF-8.
pub fn source_name(url: &str) -> (r: Option<String>)
    ensures
        match r {
            Some(n) => source_name_spec(url@) == Some(n@),
            None => source_name_spec(url@) is None,
        },
{
    match percent_decode(url) {
        Some(d) => Some(name_from_decoded(d.as_str())),
        None => None,
    }
}

/// The name under which the artifact of a record is stored.
pub fn artifact_name(url: &str, copy_to: &Option<String>) -> (r: Option<String>)
    ensures
        match r {
            Some(n) => artifact_name_spec(url@, opt_view(*copy_to)) == Some(n@),
            None => artifact_name_spec(url@, opt_view(*copy_to)) is None,
        },
{
    match copy_to {
        Some(c) => Some(c.clone()),
        None => source_name(url),
    }
}

} // verus!
