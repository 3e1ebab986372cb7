//! Server settings: the request size limit, the listening address and the
//! CORS whitelist of origins.

use vstd::prelude::*;
use crate::text::{join2, push_char};

verus! {

/// Largest accepted request body: 50 MB.
pub const MAX_BYTES: usize = 50 * 1024 * 1024;

/// Port used when `PORT` is not set.
pub const DEFAULT_PORT: &'static str = "3000";

/// Origins allowed when `ALLOWED_ORIGINS` is not set (local development).
pub const DEFAULT_ALLOWED_ORIGINS: &'static str = "http://localhost:8080,http://127.0.0.1:8080";

/// The address to listen on: every interface, on `port` or else on 3000.
pub fn listen_address(port: Option<String>) -> (r: String)
    ensures
        r@ == "0.0.0.0:"@ + match port {
            Some(p) => p@,
            None => DEFAULT_PORT@,
        },
{
    match port {
        Some(p) => join2("0.0.0.0:", p.as_str()),
        None => join2("0.0.0.0:", DEFAULT_PORT),
    }
}

/// The configured list of origins, or the development default.
pub fn origins_setting(configured: Option<String>) -> (r: String)
    ensures
        r@ == match configured {
            Some(c) => c@,
            None => DEFAULT_ALLOWED_ORIGINS@,
        },
{
    match configured {
        Some(c) => c,
        None => String::from_str(DEFAULT_ALLOWED_ORIGINS),
    }
}

/// The pieces of `s` between commas, as `str::split(',')` gives them: one
/// more piece than there are commas.
pub open spec fn split_commas(s: Seq<char>) -> Seq<Seq<char>>
    decreases s.len(),
{
    if s.len() == 0 {
        seq![Seq::<char>::empty()]
    } else {
        let p = split_commas(s.drop_last());
        if s.last() == ',' {
            p.push(Seq::empty())
        } else {
            p.update(p.len() - 1, p.last().push(s.last()))
        }
    }
}

proof fn lemma_split_nonempty(s: Seq<char>)
    ensures
        split_commas(s).len() >= 1,
    decreases s.len(),
{
    if s.len() > 0 {
        lemma_split_nonempty(s.drop_last());
    }
}

/// The pieces put back together with a comma between each two.
pub open spec fn comma_joined(pieces: Seq<Seq<char>>) -> Seq<char>
    decreases pieces.len(),
{
    if pieces.len() == 0 {
        Seq::empty()
    } else if pieces.len() == 1 {
        pieces[0]
    } else {
        comma_joined(pieces.drop_last()) + seq![','] + pieces.last()
    }
}

/// Splitting at commas loses nothing and cuts at every comma: no piece holds
/// a comma, and the pieces joined with commas give back the text.
pub proof fn lemma_split_commas_rejoins(s: Seq<char>)
    ensures
        split_commas(s).len() >= 1,
        comma_joined(split_commas(s)) == s,
        forall|i: int|
            0 <= i < split_commas(s).len() ==> !(#[trigger] split_commas(s)[i]).contains(','),
    decreases s.len(),
{
    if s.len() > 0 {
        let rest = s.drop_last();
        let c = s.last();
        lemma_split_commas_rejoins(rest);
        let p = split_commas(rest);
        let q = split_commas(s);
        if c == ',' {
            assert(q == p.push(Seq::<char>::empty()));
            assert(q.drop_last() =~= p);
            assert(comma_joined(q) =~= s);
            assert forall|i: int| 0 <= i < q.len() implies !(#[trigger] q[i]).contains(',') by {
                if i < p.len() {
                    assert(q[i] == p[i]);
                }
            }
        } else {
            let last = p.last().push(c);
            assert(q == p.update(p.len() - 1, last));
            if p.len() == 1 {
                assert(comma_joined(q) =~= s);
            } else {
                assert(q.drop_last() =~= p.drop_last());
                assert(q.last() == last);
                assert(comma_joined(p) == comma_joined(p.drop_last()) + seq![','] + p.last());
                assert(comma_joined(q) == comma_joined(p.drop_last()) + seq![','] + last);
                assert(s =~= rest.push(c));
                assert(comma_joined(q) =~= s);
            }
            assert forall|i: int| 0 <= i < q.len() implies !(#[trigger] q[i]).contains(',') by {
                if i < p.len() - 1 {
                    assert(q[i] == p[i]);
                } else {
                    assert(q[i] == last);
                    assert(!p[p.len() - 1].contains(','));
                    if last.contains(',') {
                        let k = choose|k: int| 0 <= k < last.len() && last[k] == ',';
                        assert(p.last()[k] == ',');
                    }
                }
            }
        }
    }
}

/// White space in the sense of `char::is_whitespace` (Unicode `White_Space`).
pub open spec fn is_white_space(c: char) -> bool {
    ||| '\t' <= c <= '\r'
    ||| c == ' '
    ||| c == '\u{85}'
    ||| c == '\u{a0}'
    ||| c == '\u{1680}'
    ||| '\u{2000}' <= c <= '\u{200a}'
    ||| c == '\u{2028}'
    ||| c == '\u{2029}'
    ||| c == '\u{202f}'
    ||| c == '\u{205f}'
    ||| c == '\u{3000}'
}

fn white_space(c: char) -> (r: bool)
    ensures
        r == is_white_space(c),
{
    ('\t' <= c && c <= '\r') || c == ' ' || c == '\u{85}' || c == '\u{a0}' || c == '\u{1680}' || (
    '\u{2000}' <= c && c <= '\u{200a}') || c == '\u{2028}' || c == '\u{2029}' || c == '\u{202f}'
        || c == '\u{205f}' || c == '\u{3000}'
}

/// `s` without its leading white space.
pub open spec fn trim_start(s: Seq<char>) -> Seq<char>
    decreases s.len(),
{
    if s.len() > 0 && is_white_space(s[0]) {
        trim_start(s.drop_first())
    } else {
        s
    }
}

/// `s` without its trailing white space.
pub open spec fn trim_end(s: Seq<char>) -> Seq<char>
    decreases s.len(),
{
    if s.len() > 0 && is_white_space(s.last()) {
        trim_end(s.drop_last())
    } else {
        s
    }
}

/// `s` without leading and trailing white space, as `str::trim` gives it.
pub open spec fn trim_spec(s: Seq<char>) -> Seq<char> {
    trim_end(trim_start(s))
}

/// `s` without leading and trailing white space.
pub fn trim(s: &str) -> (r: String)
    ensures
        r@ == trim_spec(s@),
{
    let n = s.unicode_len();
    let mut a: usize = 0;
    assert(s@.subrange(0, n as int) =~= s@);
    while a < n && white_space(s.get_char(a))
        invariant
            n == s@.len(),
            a <= n,
            trim_start(s@) == trim_start(s@.subrange(a as int, n as int)),
        decreases n - a,
    {
        assert(s@.subrange(a as int, n as int).drop_first() =~= s@.subrange(a + 1, n as int));
        a = a + 1;
    }
    let ghost t = s@.subrange(a as int, n as int);
    assert(trim_start(s@) == t);
    let mut b: usize = n;
    while b > a && white_space(s.get_char(b - 1))
        invariant
            n == s@.len(),
            a <= b <= n,
            t == s@.subrange(a as int, n as int),
            trim_end(t) == trim_end(s@.subrange(a as int, b as int)),
        decreases b,
    {
        assert(s@.subrange(a as int, b as int).drop_last() =~= s@.subrange(a as int, b - 1));
        b = b - 1;
    }
    let piece = s.substring_char(a, b);
    String::from_str(piece)
}

/// A character allowed in an HTTP header value: visible ASCII, a tab, or any
/// non-ASCII character (whose UTF-8 bytes are all at least 128).
pub open spec fn is_header_char(c: char) -> bool {
    ((c as u32) >= 32 && (c as u32) != 127) || c == '\t'
}

/// Whether `s` is a valid HTTP header value.
pub open spec fn is_header_value(s: Seq<char>) -> bool {
    forall|i: int| 0 <= i < s.len() ==> is_header_char(#[trigger] s[i])
}

/// Trusted: parsing `s` as an `axum::http::HeaderValue`, which succeeds
/// exactly when every byte `b` of `s` has `b >= 32 && b != 127 || b == b'\t'`;
/// stated per character.
#[verifier::external_body]
fn parses_as_header_value(s: &str) -> (r: bool)
    ensures
        r == is_header_value(s@),
{
    s.parse::<axum::http::HeaderValue>().is_ok()
}

/// The characters that carry the Unicode `White_Space` property
/// (PropList.txt), by code point: U+0009..U+000D (tab, line feed, line
/// tabulation, form feed, carriage return), U+0020, U+0085, U+00A0, U+1680,
/// U+2000..U+200A, U+2028, U+2029, U+202F, U+205F and U+3000.
pub open spec fn is_unicode_white_space(c: char) -> bool {
    let n = c as u32;
    ||| 0x9 <= n <= 0xd
    ||| n == 0x20
    ||| n == 0x85
    ||| n == 0xa0
    ||| n == 0x1680
    ||| 0x2000 <= n <= 0x200a
    ||| n == 0x2028
    ||| n == 0x2029
    ||| n == 0x202f
    ||| n == 0x205f
    ||| n == 0x3000
}

/// The white space that trimming removes is exactly Unicode `White_Space`.
pub proof fn lemma_white_space_is_unicode(c: char)
    ensures
        is_white_space(c) <==> is_unicode_white_space(c),
{
}

/// Where the leading white space of `s` ends: `trim_start` keeps the rest.
proof fn lemma_trim_start_at(s: Seq<char>) -> (a: int)
    ensures
        0 <= a <= s.len(),
        trim_start(s) == s.subrange(a, s.len() as int),
        forall|i: int| 0 <= i < a ==> is_white_space(#[trigger] s[i]),
        a < s.len() ==> !is_white_space(s[a]),
    decreases s.len(),
{
    if s.len() > 0 && is_white_space(s[0]) {
        let a1 = lemma_trim_start_at(s.drop_first());
        assert(s.drop_first().subrange(a1, s.len() - 1) =~= s.subrange(a1 + 1, s.len() as int));
        assert forall|i: int| 0 <= i < a1 + 1 implies is_white_space(#[trigger] s[i]) by {
            if i > 0 {
                assert(s[i] == s.drop_first()[i - 1]);
            }
        }
        a1 + 1
    } else {
        assert(s.subrange(0, s.len() as int) =~= s);
        0
    }
}

/// Where the trailing white space of `s` starts: `trim_end` keeps what precedes it.
proof fn lemma_trim_end_at(s: Seq<char>) -> (b: int)
    ensures
        0 <= b <= s.len(),
        trim_end(s) == s.subrange(0, b),
        forall|i: int| b <= i < s.len() ==> is_white_space(#[trigger] s[i]),
        b > 0 ==> !is_white_space(s[b - 1]),
    decreases s.len(),
{
    if s.len() > 0 && is_white_space(s.last()) {
        let b1 = lemma_trim_end_at(s.drop_last());
        assert(s.drop_last().subrange(0, b1) =~= s.subrange(0, b1));
        assert forall|i: int| b1 <= i < s.len() implies is_white_space(#[trigger] s[i]) by {
            if i < s.len() - 1 {
                assert(s[i] == s.drop_last()[i]);
            }
        }
        b1
    } else {
        assert(s.subrange(0, s.len() as int) =~= s);
        s.len() as int
    }
}

/// Trimming keeps the middle of `s`: what it removes before and after is
/// Unicode white space, and what it keeps, unless empty, begins and ends
/// with a character that is not.
pub proof fn lemma_trim_keeps_the_middle(s: Seq<char>)
    ensures
        exists|a: int, b: int|
            {
                &&& 0 <= a <= b <= s.len()
                &&& trim_spec(s) == s.subrange(a, b)
                &&& forall|i: int| 0 <= i < a ==> is_unicode_white_space(#[trigger] s[i])
                &&& forall|i: int| b <= i < s.len() ==> is_unicode_white_space(#[trigger] s[i])
                &&& a < b ==> !is_unicode_white_space(s[a]) && !is_unicode_white_space(s[b - 1])
            },
{
    let a = lemma_trim_start_at(s);
    let t = s.subrange(a, s.len() as int);
    let b1 = lemma_trim_end_at(t);
    let b = a + b1;
    assert(t.subrange(0, b1) =~= s.subrange(a, b));
    assert forall|i: int| 0 <= i < a implies is_unicode_white_space(#[trigger] s[i]) by {
        lemma_white_space_is_unicode(s[i]);
    }
    assert forall|i: int| b <= i < s.len() implies is_unicode_white_space(#[trigger] s[i]) by {
        assert(s[i] == t[i - a]);
        lemma_white_space_is_unicode(s[i]);
    }
    if a < b {
        assert(s[a] == t[0]);
        assert(s[b - 1] == t[b1 - 1]);
        lemma_white_space_is_unicode(s[a]);
        lemma_white_space_is_unicode(s[b - 1]);
    }
    assert(trim_spec(s) == s.subrange(a, b));
}

/// A Unicode white-space character at either end changes nothing that
/// trimming keeps: `trim(s + "\r") == trim(s)`, and likewise in front.
pub proof fn lemma_trim_ignores_white_space_at_ends(s: Seq<char>, c: char)
    requires
        is_unicode_white_space(c),
    ensures
        trim_spec(s.push(c)) == trim_spec(s),
        trim_spec(seq![c] + s) == trim_spec(s),
{
    lemma_white_space_is_unicode(c);
    let a = lemma_trim_start_at(s);
    let a2 = lemma_trim_start_at(s.push(c));
    let t = s.subrange(a, s.len() as int);
    if a < s.len() {
        assert(a2 == a) by {
            assert(s.push(c)[a] == s[a]);
            if a2 < a {
                assert(s.push(c)[a2] == s[a2]);
            }
        }
        assert(s.push(c).subrange(a, s.len() + 1int) =~= t.push(c));
        assert(t.push(c).drop_last() =~= t);
    } else {
        assert(a2 == s.len() + 1) by {
            if a2 <= s.len() {
                if a2 < s.len() {
                    assert(s.push(c)[a2] == s[a2]);
                }
            }
        }
        assert(trim_start(s.push(c)) =~= Seq::<char>::empty());
        assert(trim_start(s) =~= Seq::<char>::empty());
    }
    assert((seq![c] + s).drop_first() =~= s);
}

/// The CORS whitelist written in `raw`: its comma-separated entries,
/// trimmed, keeping those that are valid header values, in order.
pub open spec fn allowed_origins_spec(raw: Seq<char>) -> Seq<Seq<char>> {
    split_commas(raw).map_values(|p: Seq<char>| trim_spec(p)).filter(
        |o: Seq<char>| is_header_value(o),
    )
}

/// The texts of a list of strings.
pub open spec fn texts(v: Seq<String>) -> Seq<Seq<char>> {
    v.map_values(|s: String| s@)
}

/// The pieces of `s` between commas.
pub fn split_commas_of(s: &str) -> (r: Vec<String>)
    ensures
        texts(r@) == split_commas(s@),
{
    let n = s.unicode_len();
    let mut done: Vec<String> = Vec::new();
    let mut cur = String::new();
    let mut i: usize = 0;
    assert(s@.subrange(0, 0) =~= Seq::<char>::empty());
    assert(texts(done@).push(cur@) =~= split_commas(s@.subrange(0, 0)));
    while i < n
        invariant
            n == s@.len(),
            i <= n,
            texts(done@).push(cur@) == split_commas(s@.subrange(0, i as int)),
        decreases n - i,
    {
        let c = s.get_char(i);
        let ghost prefix = s@.subrange(0, i + 1);
        assert(prefix.drop_last() =~= s@.subrange(0, i as int));
        assert(prefix.last() == c);
        if c == ',' {
            let piece = cur;
            done.push(piece);
            cur = String::new();
            assert(texts(done@) =~= texts(done@).drop_last().push(piece@));
            assert(texts(done@).push(cur@) =~= split_commas(prefix));
        } else {
            let ghost before = cur@;
            push_char(&mut cur, c);
            assert(texts(done@).push(cur@) =~= texts(done@).push(before).update(
                done@.len() as int,
                before.push(c),
            ));
        }
        i = i + 1;
    }
    assert(s@.subrange(0, n as int) =~= s@);
    let ghost last = cur@;
    done.push(cur);
    assert(texts(done@) =~= texts(done@).drop_last().push(last));
    done
}

/// The CORS whitelist written in `raw` (see `allowed_origins_spec`).
pub fn allowed_origins(raw: &str) -> (r: Vec<String>)
    ensures
        texts(r@) == allowed_origins_spec(raw@),
{
    let pieces = split_commas_of(raw);
    let ghost trimmed = texts(pieces@).map_values(|p: Seq<char>| trim_spec(p));
    let ghost keep = |o: Seq<char>| is_header_value(o);
    let mut out: Vec<String> = Vec::new();
    let mut i: usize = 0;
    assert(trimmed.subrange(0, 0).filter(keep) =~= Seq::<Seq<char>>::empty()) by {
        reveal(Seq::filter);
    }
    while i < pieces.len()
        invariant
            i <= pieces.len(),
            trimmed == texts(pieces@).map_values(|p: Seq<char>| trim_spec(p)),
            keep == (|o: Seq<char>| is_header_value(o)),
            texts(out@) =~= trimmed.subrange(0, i as int).filter(keep),
        decreases pieces.len() - i,
    {
        let t = trim(pieces[i].as_str());
        assert(trimmed[i as int] == t@);
        assert(trimmed.subrange(0, i + 1) =~= trimmed.subrange(0, i as int).push(t@));
        proof {
            trimmed.subrange(0, i as int).lemma_filter_push(t@, keep);
        }
        if parses_as_header_value(t.as_str()) {
            let ghost before = texts(out@);
            out.push(t);
            assert(texts(out@) =~= before.push(t@));
        }
        i = i + 1;
    }
    assert(trimmed.subrange(0, i as int) =~= trimmed);
    out
}

} // verus!
