use vstd::prelude::*;

verus! {

/// The text in front of every publisher socket path.
pub open spec fn ipc_prefix() -> Seq<char> {
    seq!['i', 'p', 'c', ':', '/', '/', '/', 't', 'm', 'p', '/']
}

/// The file extension of every publisher socket path.
pub open spec fn ipc_suffix() -> Seq<char> {
    seq!['.', 'i', 'p', 'c']
}

/// `s` begins with `p`.
pub open spec fn starts_with(s: Seq<char>, p: Seq<char>) -> bool {
    p.len() <= s.len() && s.subrange(0, p.len() as int) == p
}

/// `s` ends with `p`.
pub open spec fn ends_with(s: Seq<char>, p: Seq<char>) -> bool {
    p.len() <= s.len() && s.subrange(s.len() - p.len(), s.len() as int) == p
}

/// `s` with every leading copy of a non-empty `p` removed, one after the other.
pub open spec fn strip_prefixes(s: Seq<char>, p: Seq<char>) -> Seq<char>
    decreases s.len(),
{
    if p.len() > 0 && starts_with(s, p) {
        strip_prefixes(s.subrange(p.len() as int, s.len() as int), p)
    } else {
        s
    }
}

/// `s` with every trailing copy of a non-empty `p` removed, one after the other.
pub open spec fn strip_suffixes(s: Seq<char>, p: Seq<char>) -> Seq<char>
    decreases s.len(),
{
    if p.len() > 0 && ends_with(s, p) {
        strip_suffixes(s.subrange(0, s.len() - p.len()), p)
    } else {
        s
    }
}

/// The identifier of a publisher: its socket path without the leading
/// `ipc:///tmp/` and without the trailing `.ipc` (each removed as often as it
/// occurs there).
pub open spec fn ipc_ident(uri: Seq<char>) -> Seq<char> {
    strip_suffixes(strip_prefixes(uri, ipc_prefix()), ipc_suffix())
}

/// Whether `pat` occurs in `s` at character position `pos`.
fn matches_at(s: &str, s_len: usize, pos: usize, pat: &str, pat_len: usize) -> (b: bool)
    requires
        s_len == s@.len(),
        pat_len == pat@.len(),
        pos + pat_len <= s_len,
    ensures
        b == (s@.subrange(pos as int, pos + pat_len) == pat@),
{
    let mut i: usize = 0;
    while i < pat_len
        invariant
            s_len == s@.len(),
            pat_len == pat@.len(),
            pos + pat_len <= s_len,
            i <= pat_len,
            forall|j: int| 0 <= j < i ==> s@[pos + j] == pat@[j],
        decreases pat_len - i,
    {
        if s.get_char(pos + i) != pat.get_char(i) {
            assert(s@.subrange(pos as int, pos + pat_len)[i as int] != pat@[i as int]);
            return false;
        }
        i = i + 1;
    }
    assert(s@.subrange(pos as int, pos + pat_len) =~= pat@);
    true
}

/// Whether the two texts are equal, character by character.
pub fn str_eq(a: &str, b: &str) -> (r: bool)
    ensures
        r == (a@ == b@),
{
    let a_len = a.unicode_len();
    let b_len = b.unicode_len();
    if a_len != b_len {
        return false;
    }
    let r = matches_at(a, a_len, 0, b, b_len);
    assert(a@.subrange(0, a_len as int) =~= a@);
    r
}

/// `s` with every leading copy of `pat` removed (`str::trim_start_matches`).
pub fn trim_start_matches<'a>(s: &'a str, pat: &str) -> (r: &'a str)
    ensures
        r@ == strip_prefixes(s@, pat@),
{
    let s_len = s.unicode_len();
    let pat_len = pat.unicode_len();
    if pat_len == 0 {
        return s;
    }
    let mut pos: usize = 0;
    assert(s@.subrange(0, s_len as int) =~= s@);
    while pos <= s_len && pat_len <= s_len - pos && matches_at(s, s_len, pos, pat, pat_len)
        invariant
            s_len == s@.len(),
            pat_len == pat@.len(),
            pat_len > 0,
            pos <= s_len,
            strip_prefixes(s@, pat@) == strip_prefixes(s@.subrange(pos as int, s_len as int), pat@),
        decreases s_len - pos,
    {
        let ghost rest = s@.subrange(pos as int, s_len as int);
        assert(rest.subrange(0, pat_len as int) =~= s@.subrange(pos as int, pos + pat_len));
        assert(rest.subrange(pat_len as int, rest.len() as int) =~= s@.subrange(pos + pat_len, s_len as int));
        pos = pos + pat_len;
    }
    let ghost rest = s@.subrange(pos as int, s_len as int);
    assert(!starts_with(rest, pat@)) by {
        if pat_len <= s_len - pos {
            assert(rest.subrange(0, pat_len as int) =~= s@.subrange(pos as int, pos + pat_len));
        }
    }
    s.substring_char(pos, s_len)
}

/// `s` with every trailing copy of `pat` removed (`str::trim_end_matches`).
pub fn trim_end_matches<'a>(s: &'a str, pat: &str) -> (r: &'a str)
    ensures
        r@ == strip_suffixes(s@, pat@),
{
    let s_len = s.unicode_len();
    let pat_len = pat.unicode_len();
    if pat_len == 0 {
        return s;
    }
    let mut end: usize = s_len;
    assert(s@.subrange(0, s_len as int) =~= s@);
    while pat_len <= end && matches_at(s, s_len, end - pat_len, pat, pat_len)
        invariant
            s_len == s@.len(),
            pat_len == pat@.len(),
            pat_len > 0,
            end <= s_len,
            strip_suffixes(s@, pat@) == strip_suffixes(s@.subrange(0, end as int), pat@),
        decreases end,
    {
        let ghost rest = s@.subrange(0, end as int);
        assert(rest.subrange(end - pat_len, end as int) =~= s@.subrange(end - pat_len, end as int));
        assert(rest.subrange(0, end - pat_len) =~= s@.subrange(0, end - pat_len));
        end = end - pat_len;
    }
    let ghost rest = s@.subrange(0, end as int);
    assert(!ends_with(rest, pat@)) by {
        if pat_len <= end {
            assert(rest.subrange(end - pat_len, end as int) =~= s@.subrange(end - pat_len, end as int));
        }
    }
    s.substring_char(0, end)
}

/// The identifier of a publisher, from its socket path: `ipc:///tmp/<ident>.ipc`.
pub fn ipc_uri_to_ident(uri: &str) -> (r: &str)
    ensures
        r@ == ipc_ident(uri@),
{
    let prefix = "ipc:///tmp/";
    let suffix = ".ipc";
    proof {
        reveal_strlit("ipc:///tmp/");
        reveal_strlit(".ipc");
        assert(prefix@ =~= ipc_prefix());
        assert(suffix@ =~= ipc_suffix());
    }
    let trimmed = trim_start_matches(uri, prefix);
    trim_end_matches(trimmed, suffix)
}

proof fn lemma_strip_prefixes_result(s: Seq<char>, p: Seq<char>)
    requires
        p.len() > 0,
    ensures
        !starts_with(strip_prefixes(s, p), p),
        !starts_with(s, p) ==> strip_prefixes(s, p) == s,
    decreases s.len(),
{
    if starts_with(s, p) {
        lemma_strip_prefixes_result(s.subrange(p.len() as int, s.len() as int), p);
    }
}

proof fn lemma_strip_suffixes_result(s: Seq<char>, p: Seq<char>)
    requires
        p.len() > 0,
    ensures
        !ends_with(strip_suffixes(s, p), p),
        strip_suffixes(s, p).len() <= s.len(),
        s.subrange(0, strip_suffixes(s, p).len() as int) == strip_suffixes(s, p),
        !ends_with(s, p) ==> strip_suffixes(s, p) == s,
    decreases s.len(),
{
    if ends_with(s, p) {
        let t = s.subrange(0, s.len() - p.len());
        lemma_strip_suffixes_result(t, p);
        let r = strip_suffixes(t, p);
        assert(s.subrange(0, r.len() as int) =~= t.subrange(0, r.len() as int));
    } else {
        assert(s.subrange(0, s.len() as int) =~= s);
    }
}

/// A leading part of a text that does not begin with `p` does not begin with `p`.
proof fn lemma_prefix_keeps_no_start(s: Seq<char>, r: Seq<char>, p: Seq<char>)
    requires
        !starts_with(s, p),
        r.len() <= s.len(),
        s.subrange(0, r.len() as int) == r,
    ensures
        !starts_with(r, p),
{
    if starts_with(r, p) {
        assert(s.subrange(0, p.len() as int) =~= r.subrange(0, p.len() as int));
    }
}

/// Law: an identifier is its own identifier; taking the identifier twice
/// changes nothing.
pub proof fn law_ipc_ident_idempotent(uri: Seq<char>)
    ensures
        ipc_ident(ipc_ident(uri)) == ipc_ident(uri),
{
    let p = ipc_prefix();
    let q = ipc_suffix();
    let a = strip_prefixes(uri, p);
    lemma_strip_prefixes_result(uri, p);
    lemma_strip_suffixes_result(a, q);
    let r = strip_suffixes(a, q);
    lemma_prefix_keeps_no_start(a, r, p);
    lemma_strip_prefixes_result(r, p);
    lemma_strip_suffixes_result(r, q);
}

/// Law: the identifier of `ipc:///tmp/<name>.ipc` is `name`, for every name
/// that does not itself begin with `ipc:///tmp/` nor end with `.ipc`.
pub proof fn law_ipc_ident_of_socket_path(name: Seq<char>)
    requires
        !starts_with(name, ipc_prefix()),
        !ends_with(name, ipc_suffix()),
    ensures
        ipc_ident(ipc_prefix() + name + ipc_suffix()) == name,
{
    let p = ipc_prefix();
    let q = ipc_suffix();
    let uri = p + name + q;
    let tail = name + q;
    assert(uri.subrange(0, p.len() as int) =~= p);
    assert(uri.subrange(p.len() as int, uri.len() as int) =~= tail);
    assert(!starts_with(tail, p)) by {
        if starts_with(tail, p) {
            if name.len() >= p.len() {
                assert(name.subrange(0, p.len() as int) =~= tail.subrange(0, p.len() as int));
            } else {
                let k = name.len() as int;
                assert(tail[k] == '.');
                assert(tail.subrange(0, p.len() as int)[k] == p[k]);
            }
        }
    }
    lemma_strip_prefixes_result(tail, p);
    assert(strip_prefixes(uri, p) == tail);
    assert(tail.subrange(tail.len() - q.len(), tail.len() as int) =~= q);
    assert(tail.subrange(0, tail.len() - q.len()) =~= name);
    lemma_strip_suffixes_result(name, q);
}

} // verus!
