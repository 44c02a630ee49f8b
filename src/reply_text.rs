//! Isolating the JSON part of a model reply: surrounding whitespace and a
//! markdown code fence (with an optional `json` tag) are taken off.

use vstd::prelude::*;

verus! {

/// A Unicode `White_Space` character, the set that `char::is_whitespace`
/// and `str::trim` go by.
pub open spec fn is_ws(c: char) -> bool {
    let u = c as u32;
    (0x09 <= u <= 0x0d) || u == 0x20 || u == 0x85 || u == 0xa0 || u == 0x1680 || (0x2000 <= u
        <= 0x200a) || u == 0x2028 || u == 0x2029 || u == 0x202f || u == 0x205f || u == 0x3000
}

/// `s` without its leading whitespace.
pub open spec fn trim_start(s: Seq<char>) -> Seq<char>
    decreases s.len(),
{
    if s.len() > 0 && is_ws(s[0]) {
        trim_start(s.drop_first())
    } else {
        s
    }
}

/// `s` without its trailing whitespace.
pub open spec fn trim_end(s: Seq<char>) -> Seq<char>
    decreases s.len(),
{
    if s.len() > 0 && is_ws(s.last()) {
        trim_end(s.drop_last())
    } else {
        s
    }
}

/// `s` without whitespace at either end.
pub open spec fn trim(s: Seq<char>) -> Seq<char> {
    trim_end(trim_start(s))
}

/// `p` stands in `s` from position `i` on.
pub open spec fn occurs_at(s: Seq<char>, p: Seq<char>, i: int) -> bool {
    0 <= i && i + p.len() <= s.len() && s.subrange(i, i + p.len()) == p
}

/// The first position at or after `i` where `p` stands in `s`.
pub open spec fn find_from(s: Seq<char>, p: Seq<char>, i: int) -> Option<int>
    decreases s.len() + 1 - i,
{
    if i < 0 || i + p.len() > s.len() {
        None
    } else if occurs_at(s, p, i) {
        Some(i)
    } else {
        find_from(s, p, i + 1)
    }
}

/// A position that `find_from` gives is at or after `i`, with `p` standing
/// there inside `s`.
pub proof fn lemma_find_from_bounds(s: Seq<char>, p: Seq<char>, i: int)
    ensures
        find_from(s, p, i) matches Some(k) ==> i <= k && k + p.len() <= s.len() && occurs_at(
            s,
            p,
            k,
        ),
    decreases s.len() + 1 - i,
{
    if !(i < 0 || i + p.len() > s.len()) && !occurs_at(s, p, i) {
        lemma_find_from_bounds(s, p, i + 1);
    }
}

/// The first position where `p` stands in `s`.
pub open spec fn find(s: Seq<char>, p: Seq<char>) -> Option<int> {
    find_from(s, p, 0)
}

/// `s` with every leading repetition of a non-empty `p` taken off.
pub open spec fn strip_prefixes(s: Seq<char>, p: Seq<char>) -> Seq<char>
    decreases s.len(),
{
    if p.len() > 0 && occurs_at(s, p, 0) {
        strip_prefixes(s.subrange(p.len() as int, s.len() as int), p)
    } else {
        s
    }
}

/// The code fence marker: three backticks.
pub open spec fn fence() -> Seq<char> {
    seq!['`', '`', '`']
}

/// An opening fence tagged as JSON.
pub open spec fn json_fence() -> Seq<char> {
    seq!['`', '`', '`', 'j', 's', 'o', 'n']
}

/// The text that is handed to the JSON parser for the reply `raw`. The reply
/// is trimmed. Where a fence occurs in it, what follows the first fence, once
/// opening markers (tagged or not) are taken off, is cut at the next fence and
/// trimmed; without a closing fence, or without any fence, the trimmed reply
/// is used as it is.
pub open spec fn extracted(raw: Seq<char>) -> Seq<char> {
    let s = trim(raw);
    match find(s, fence()) {
        Some(pos) => {
            let rest = strip_prefixes(
                strip_prefixes(s.subrange(pos, s.len() as int), json_fence()),
                fence(),
            );
            match find(rest, fence()) {
                Some(end) => trim(rest.subrange(0, end)),
                None => s,
            }
        },
        None => s,
    }
}

/// Relies on `str::chars`: the characters of `s`, in order.
#[verifier::external_body]
pub(crate) fn chars_of(s: &str) -> (r: Vec<char>)
    ensures
        r@ == s@,
{
    s.chars().collect()
}

/// Relies on `String: FromIterator<char>`: the string of the characters `cs`.
#[verifier::external_body]
pub(crate) fn string_of(cs: &[char]) -> (r: String)
    ensures
        r@ == cs@,
{
    cs.iter().collect()
}

/// Whether `c` is whitespace in the sense of `str::trim`.
pub fn is_whitespace_char(c: char) -> (r: bool)
    ensures
        r == is_ws(c),
{
    let u = c as u32;
    (0x09 <= u && u <= 0x0d) || u == 0x20 || u == 0x85 || u == 0xa0 || u == 0x1680 || (0x2000
        <= u && u <= 0x200a) || u == 0x2028 || u == 0x2029 || u == 0x202f || u == 0x205f || u
        == 0x3000
}

/// A copy of `s[lo..hi]`.
pub(crate) fn copy_range(s: &[char], lo: usize, hi: usize) -> (r: Vec<char>)
    requires
        lo <= hi <= s@.len(),
    ensures
        r@ == s@.subrange(lo as int, hi as int),
{
    let mut out: Vec<char> = Vec::new();
    let mut i: usize = lo;
    while i < hi
        invariant
            lo <= i <= hi <= s@.len(),
            out@ =~= s@.subrange(lo as int, i as int),
        decreases hi - i,
    {
        out.push(s[i]);
        i += 1;
    }
    out
}

/// `s` without whitespace at either end.
pub fn trim_chars(s: &[char]) -> (r: Vec<char>)
    ensures
        r@ == trim(s@),
{
    let n = s.len();
    let mut lo: usize = 0;
    assert(s@.subrange(0, n as int) =~= s@);
    while lo < n && is_whitespace_char(s[lo])
        invariant
            lo <= n == s@.len(),
            trim_start(s@) == trim_start(s@.subrange(lo as int, n as int)),
        decreases n - lo,
    {
        assert(s@.subrange(lo as int, n as int).drop_first() =~= s@.subrange(
            lo as int + 1,
            n as int,
        ));
        lo += 1;
    }
    assert(trim_start(s@.subrange(lo as int, n as int)) == s@.subrange(lo as int, n as int));
    let mut hi: usize = n;
    while hi > lo && is_whitespace_char(s[hi - 1])
        invariant
            lo <= hi <= n == s@.len(),
            trim(s@) == trim_end(s@.subrange(lo as int, hi as int)),
        decreases hi,
    {
        assert(s@.subrange(lo as int, hi as int).drop_last() =~= s@.subrange(
            lo as int,
            hi as int - 1,
        ));
        hi -= 1;
    }
    copy_range(s, lo, hi)
}

/// Whether `p` stands in `s` from position `i` on.
fn occurs_at_chars(s: &[char], p: &[char], i: usize) -> (r: bool)
    ensures
        r == occurs_at(s@, p@, i as int),
{
    let n = s.len();
    if i > n || p.len() > n - i {
        return false;
    }
    let mut j: usize = 0;
    while j < p.len()
        invariant
            n == s@.len(),
            j <= p@.len(),
            i + p@.len() <= s@.len(),
            forall|k: int| 0 <= k < j ==> s@[i + k] == p@[k],
        decreases p.len() - j,
    {
        if s[i + j] != p[j] {
            assert(s@.subrange(i as int, i + p@.len())[j as int] != p@[j as int]);
            return false;
        }
        j += 1;
    }
    assert(s@.subrange(i as int, i + p@.len()) =~= p@);
    true
}

/// The first position where a non-empty `p` stands in `s`.
fn find_chars(s: &[char], p: &[char]) -> (r: Option<usize>)
    requires
        p@.len() > 0,
    ensures
        match r {
            Some(i) => find(s@, p@) == Some(i as int),
            None => find(s@, p@) is None,
        },
{
    let mut i: usize = 0;
    while p.len() <= s.len() && i <= s.len() - p.len()
        invariant
            p@.len() > 0,
            i <= s@.len(),
            find(s@, p@) == find_from(s@, p@, i as int),
        decreases s.len() - i,
    {
        if occurs_at_chars(s, p, i) {
            return Some(i);
        }
        i += 1;
    }
    None
}

/// `s` with every leading repetition of a non-empty `p` taken off.
fn strip_prefixes_chars(s: &[char], p: &[char]) -> (r: Vec<char>)
    requires
        p@.len() > 0,
    ensures
        r@ == strip_prefixes(s@, p@),
{
    let n = s.len();
    let mut lo: usize = 0;
    assert(s@.subrange(0, n as int) =~= s@);
    while occurs_at_chars(s, p, lo)
        invariant
            lo <= n == s@.len(),
            p@.len() > 0,
            strip_prefixes(s@, p@) == strip_prefixes(s@.subrange(lo as int, n as int), p@),
        decreases n - lo,
    {
        let ghost sub = s@.subrange(lo as int, n as int);
        assert(sub.subrange(0, p@.len() as int) =~= s@.subrange(lo as int, lo + p@.len()));
        assert(sub.subrange(p@.len() as int, sub.len() as int) =~= s@.subrange(
            lo + p@.len(),
            n as int,
        ));
        lo = lo + p.len();
    }
    let ghost sub = s@.subrange(lo as int, n as int);
    proof {
        if lo + p@.len() <= n {
            assert(sub.subrange(0, p@.len() as int) =~= s@.subrange(lo as int, lo + p@.len()));
        }
    }
    copy_range(s, lo, n)
}

/// The text of a model reply that is to be read as JSON: the reply trimmed,
/// and where it holds a fenced block, the trimmed text inside the block.
pub fn extract_json_text(raw: &str) -> (r: String)
    ensures
        r@ == extracted(raw@),
{
    proof {
        let t = trim(raw@);
        lemma_find_from_bounds(t, fence(), 0);
        if let Some(pos) = find(t, fence()) {
            let rest = strip_prefixes(
                strip_prefixes(t.subrange(pos, t.len() as int), json_fence()),
                fence(),
            );
            lemma_find_from_bounds(rest, fence(), 0);
        }
    }
    let all = chars_of(raw);
    let s = trim_chars(all.as_slice());
    let marker: Vec<char> = vec!['`', '`', '`'];
    let tagged: Vec<char> = vec!['`', '`', '`', 'j', 's', 'o', 'n'];
    assert(marker@ =~= fence());
    assert(tagged@ =~= json_fence());
    if let Some(pos) = find_chars(s.as_slice(), marker.as_slice()) {
        let tail = copy_range(s.as_slice(), pos, s.len());
        let untagged = strip_prefixes_chars(tail.as_slice(), tagged.as_slice());
        let rest = strip_prefixes_chars(untagged.as_slice(), marker.as_slice());
        if let Some(end) = find_chars(rest.as_slice(), marker.as_slice()) {
            let inner = copy_range(rest.as_slice(), 0, end);
            let t = trim_chars(inner.as_slice());
            return string_of(t.as_slice());
        }
    }
    string_of(s.as_slice())
}

/// Where `find_from` finds nothing, `p` stands nowhere in `s` at or after `i`.
proof fn lemma_find_from_none(s: Seq<char>, p: Seq<char>, i: int, j: int)
    requires
        0 <= i <= j,
        find_from(s, p, i) is None,
    ensures
        !occurs_at(s, p, j),
    decreases j - i,
{
    if i < j {
        lemma_find_from_none(s, p, i + 1, j);
    }
}

/// Positions where `p` does not stand are passed over by `find_from`.
proof fn lemma_find_from_skip(s: Seq<char>, p: Seq<char>, a: int, l: int)
    requires
        0 <= a <= l,
        l + p.len() <= s.len(),
        forall|i: int| a <= i < l ==> !occurs_at(s, p, i),
    ensures
        find_from(s, p, a) == find_from(s, p, l),
    decreases l - a,
{
    if a < l {
        lemma_find_from_skip(s, p, a + 1, l);
    }
}

/// A reply with no fence after trimming is parsed as the trimmed reply.
pub proof fn lemma_unfenced_reply(raw: Seq<char>)
    requires
        find(trim(raw), fence()) is None,
    ensures
        extracted(raw) == trim(raw),
{
}

/// A text that neither starts nor ends with whitespace is its own trim.
pub(crate) proof fn lemma_trim_unchanged(s: Seq<char>)
    requires
        s.len() > 0,
        !is_ws(s[0]),
        !is_ws(s.last()),
    ensures
        trim(s) == s,
{
}

/// A text whose first character differs from that of `p` loses no prefix.
proof fn lemma_strip_nothing(t: Seq<char>, p: Seq<char>)
    requires
        p.len() > 0,
        t.len() > 0,
        t[0] != p[0],
    ensures
        strip_prefixes(t, p) == t,
{
    if p.len() <= t.len() {
        assert(t.subrange(0, p.len() as int)[0] == t[0]);
    }
}

/// In a block's text followed by a closing fence, the first fence is the
/// closing one, and what stands before it is the block's text.
proof fn lemma_closing_fence(body: Seq<char>)
    requires
        body.len() > 0,
        body.last() != '`',
        find(body, fence()) is None,
    ensures
        find(body + fence(), fence()) == Some(body.len() as int),
        (body + fence()).subrange(0, body.len() as int) == body,
{
    let f = fence();
    let t = body + f;
    let l = body.len() as int;
    assert forall|i: int| 0 <= i < l implies !occurs_at(t, f, i) by {
        if i + 3 <= l {
            lemma_find_from_none(body, f, 0, i);
            assert(t.subrange(i, i + 3) =~= body.subrange(i, i + 3));
        } else {
            assert(t.subrange(i, i + 3)[l - 1 - i] == body.last());
        }
    }
    lemma_find_from_skip(t, f, 0, l);
    assert(t.subrange(l, l + 3) =~= f);
    assert(t.subrange(0, l) =~= body);
}

/// A reply that is a block opened by a `json`-tagged fence and closed by a
/// fence gives exactly the block's text, trimmed. The block's text holds no
/// fence, is not empty, and neither starts nor ends with a backtick (else its
/// backticks would run into the markers).
#[verifier::spinoff_prover]
#[verifier::rlimit(40)]
pub proof fn lemma_fenced_reply(body: Seq<char>)
    requires
        body.len() > 0,
        body[0] != '`',
        body.last() != '`',
        find(body, fence()) is None,
    ensures
        extracted(json_fence() + body + fence()) == trim(body),
{
    let f = fence();
    let jf = json_fence();
    let s = jf + body + f;
    assert(s[0] == '`');
    assert(s.last() == '`');
    lemma_trim_unchanged(s);
    assert(s.subrange(0, 3) =~= f);
    assert(find(s, f) == Some(0int));
    assert(s.subrange(0, s.len() as int) =~= s);
    assert(s.subrange(0, 7) =~= jf);
    let t = s.subrange(7, s.len() as int);
    assert(t =~= body + f);
    assert(strip_prefixes(s, jf) == strip_prefixes(t, jf));
    lemma_strip_nothing(t, jf);
    lemma_strip_nothing(t, f);
    lemma_closing_fence(body);
}

/// The language tag that an opening fence may carry.
pub open spec fn json_tag() -> Seq<char> {
    seq!['j', 's', 'o', 'n']
}

/// A reply that is a block between two bare fences gives exactly the block's
/// text, trimmed. The block's text holds no fence, is not empty, neither
/// starts nor ends with a backtick, and does not start with `json` (which
/// would be read as a language tag).
#[verifier::spinoff_prover]
#[verifier::rlimit(40)]
pub proof fn lemma_bare_fenced_reply(body: Seq<char>)
    requires
        body.len() > 0,
        body[0] != '`',
        body.last() != '`',
        find(body, fence()) is None,
        !occurs_at(body, json_tag(), 0),
    ensures
        extracted(fence() + body + fence()) == trim(body),
{
    let f = fence();
    let jf = json_fence();
    let s = f + body + f;
    assert(s[0] == '`');
    assert(s.last() == '`');
    lemma_trim_unchanged(s);
    assert(s.subrange(0, 3) =~= f);
    assert(find(s, f) == Some(0int));
    assert(s.subrange(0, s.len() as int) =~= s);
    if occurs_at(s, jf, 0) {
        assert(s.subrange(0, 7).subrange(3, 7) =~= body.subrange(0, 4));
        assert(jf.subrange(3, 7) =~= json_tag());
    }
    assert(strip_prefixes(s, jf) == s);
    let t = s.subrange(3, s.len() as int);
    assert(t =~= body + f);
    assert(strip_prefixes(s, f) == strip_prefixes(t, f));
    lemma_strip_nothing(t, f);
    lemma_closing_fence(body);
}

} // verus!
