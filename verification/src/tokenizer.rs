use vstd::prelude::*;
use vstd::string::StrSliceExecFns;

use crate::errors::FfiError;

verus! {

/// The segment sequence a pending segment contributes when it is closed: an
/// empty pending segment is discarded, any other becomes one segment.
pub open spec fn emitted(cur: Seq<char>) -> Seq<Seq<char>> {
    if cur.len() == 0 {
        Seq::empty()
    } else {
        seq![cur]
    }
}

/// The segments of `cur + s` when `cur` is the segment pending so far:
/// scanning `s` left to right, each `/` closes the pending segment and the
/// end of the text closes the last one.
pub open spec fn tokenize_from(s: Seq<char>, cur: Seq<char>) -> Seq<Seq<char>>
    decreases s.len(),
{
    if s.len() == 0 {
        emitted(cur)
    } else if s[0] == '/' {
        emitted(cur) + tokenize_from(s.skip(1), Seq::empty())
    } else {
        tokenize_from(s.skip(1), cur.push(s[0]))
    }
}

/// The non-empty segments of `s` in order, splitting on `/` and discarding
/// every empty segment.
pub open spec fn tokenize_spec(s: Seq<char>) -> Seq<Seq<char>> {
    tokenize_from(s, Seq::empty())
}

/// Splits a path into its non-empty `/`-separated segments; leading,
/// trailing and repeated slashes contribute nothing.
pub fn tokenise_str(path: &str) -> (r: Vec<String>)
    ensures
        r.deep_view() == tokenize_spec(path@),
{
    let ghost s = path@;
    let n = path.unicode_len();
    let mut tokens: Vec<String> = Vec::new();
    let mut start: usize = 0;
    let mut i: usize = 0;
    assert(s.skip(0) =~= s);
    assert(s.subrange(0, 0) =~= Seq::<char>::empty());
    assert(tokens.deep_view() =~= Seq::<Seq<char>>::empty());
    while i < n
        invariant
            start <= i <= n,
            n == s.len(),
            s == path@,
            tokens.deep_view() + tokenize_from(s.skip(i as int), s.subrange(start as int, i as int))
                == tokenize_spec(s),
        decreases n - i,
    {
        let ghost cur = s.subrange(start as int, i as int);
        let ghost rest = s.skip(i as int);
        assert(rest[0] == s[i as int]);
        assert(rest.skip(1) =~= s.skip(i as int + 1));
        let c = path.get_char(i);
        if c == '/' {
            assert(tokenize_from(rest, cur) == emitted(cur) + tokenize_from(
                s.skip(i as int + 1),
                Seq::empty(),
            ));
            let ghost before = tokens.deep_view();
            if start < i {
                let seg = path.substring_char(start, i);
                tokens.push(seg.to_owned());
                assert(tokens.deep_view() =~= before.push(cur));
            }
            assert(tokens.deep_view() =~= before + emitted(cur));
            start = i + 1;
            assert(s.subrange(start as int, i as int + 1) =~= Seq::<char>::empty());
            assert((before + emitted(cur)) + tokenize_from(s.skip(i as int + 1), Seq::empty())
                =~= before + (emitted(cur) + tokenize_from(s.skip(i as int + 1), Seq::empty())));
        } else {
            assert(tokenize_from(rest, cur) == tokenize_from(rest.skip(1), cur.push(s[i as int])));
            assert(cur.push(s[i as int]) =~= s.subrange(start as int, i as int + 1));
        }
        i += 1;
    }
    let ghost cur = s.subrange(start as int, n as int);
    assert(s.skip(n as int).len() == 0);
    assert(tokenize_from(s.skip(n as int), cur) == emitted(cur));
    let ghost before = tokens.deep_view();
    if start < n {
        let seg = path.substring_char(start, n);
        tokens.push(seg.to_owned());
        assert(tokens.deep_view() =~= before.push(cur));
    }
    assert(tokens.deep_view() =~= before + emitted(cur));
    tokens
}

/// Every character of `s` is a slash.
pub open spec fn all_slashes(s: Seq<char>) -> bool {
    forall|i: int| 0 <= i < s.len() ==> s[i] == '/'
}

/// A path segment: non-empty text without any slash.
pub open spec fn is_segment(s: Seq<char>) -> bool {
    s.len() > 0 && forall|i: int| 0 <= i < s.len() ==> s[i] != '/'
}

/// `s` spells the segments of `segments` in order, joined by one or more
/// slashes, with any number of leading and trailing slashes.
pub open spec fn is_slash_join(s: Seq<char>, segments: Seq<Seq<char>>) -> bool
    decreases s.len(),
{
    if segments.len() == 0 {
        all_slashes(s)
    } else if s.len() > 0 && s[0] == '/' {
        is_slash_join(s.skip(1), segments)
    } else {
        if is_segment(segments[0]) && segments[0].len() <= s.len() && s.subrange(
            0,
            segments[0].len() as int,
        ) == segments[0] {
            if segments.len() == 1 {
                all_slashes(s.skip(segments[0].len() as int))
            } else {
                s.len() > segments[0].len() && s[segments[0].len() as int] == '/'
                    && is_slash_join(s.skip(segments[0].len() as int), segments.skip(1))
            }
        } else {
            false
        }
    }
}

/// Scanning text of only slashes closes the pending segment and adds
/// nothing more.
proof fn lemma_tokenize_slash_tail(s: Seq<char>, cur: Seq<char>)
    requires
        all_slashes(s),
    ensures
        tokenize_from(s, cur) == emitted(cur),
    decreases s.len(),
{
    if s.len() > 0 {
        assert(s[0] == '/');
        assert(all_slashes(s.skip(1)));
        lemma_tokenize_slash_tail(s.skip(1), Seq::empty());
        assert(emitted(cur) + emitted(Seq::<char>::empty()) =~= emitted(cur));
    }
}

/// Scanning a slash-free text only grows the pending segment.
proof fn lemma_tokenize_shift(seg: Seq<char>, rest: Seq<char>, cur: Seq<char>)
    requires
        forall|i: int| 0 <= i < seg.len() ==> seg[i] != '/',
    ensures
        tokenize_from(seg + rest, cur) == tokenize_from(rest, cur + seg),
    decreases seg.len(),
{
    if seg.len() == 0 {
        assert(seg + rest =~= rest);
        assert(cur + seg =~= cur);
    } else {
        let s = seg + rest;
        assert(s[0] == seg[0]);
        assert(s[0] != '/');
        assert(s.skip(1) =~= seg.skip(1) + rest);
        lemma_tokenize_shift(seg.skip(1), rest, cur.push(seg[0]));
        assert(cur.push(seg[0]) + seg.skip(1) =~= cur + seg);
    }
}

/// Tokenizing an empty path, or a path of only slashes, yields no
/// segments.
pub proof fn lemma_tokenize_only_slashes(s: Seq<char>)
    requires
        all_slashes(s),
    ensures
        tokenize_spec(s) == Seq::<Seq<char>>::empty(),
{
    lemma_tokenize_slash_tail(s, Seq::empty());
}

/// Tokenization yields exactly the joined segments, however redundant the
/// slashes: every way of spelling `segments` with one-or-more slashes
/// between them and any leading or trailing slashes tokenizes to
/// `segments` itself.
pub proof fn lemma_tokenize_join(s: Seq<char>, segments: Seq<Seq<char>>)
    requires
        is_slash_join(s, segments),
    ensures
        tokenize_spec(s) == segments,
    decreases s.len(),
{
    if segments.len() == 0 {
        lemma_tokenize_only_slashes(s);
        assert(segments =~= Seq::<Seq<char>>::empty());
    } else if s.len() > 0 && s[0] == '/' {
        lemma_tokenize_join(s.skip(1), segments);
        assert(emitted(Seq::<char>::empty()) + tokenize_from(s.skip(1), Seq::empty())
            =~= tokenize_from(s.skip(1), Seq::empty()));
    } else {
        let seg0 = segments[0];
        let len0 = seg0.len() as int;
        let rest = s.skip(len0);
        assert(is_segment(seg0));
        assert(seg0 + rest =~= s);
        lemma_tokenize_shift(seg0, rest, Seq::empty());
        assert(Seq::<char>::empty() + seg0 =~= seg0);
        assert(tokenize_spec(s) == tokenize_from(rest, seg0));
        if segments.len() == 1 {
            lemma_tokenize_slash_tail(rest, seg0);
            assert(emitted(seg0) =~= seq![seg0]);
            assert(segments =~= seq![seg0]);
        } else {
            assert(rest[0] == '/');
            lemma_tokenize_join(rest, segments.skip(1));
            assert(emitted(Seq::<char>::empty()) + tokenize_from(rest.skip(1), Seq::empty())
                =~= tokenize_from(rest.skip(1), Seq::empty()));
            assert(tokenize_from(rest.skip(1), Seq::empty()) == segments.skip(1));
            assert(emitted(seg0) + segments.skip(1) =~= segments);
        }
    }
}

/// What tokenization yields is a sequence of path segments: none is empty
/// and none contains a slash.
pub proof fn lemma_tokenize_yields_segments(s: Seq<char>)
    ensures
        forall|k: int|
            0 <= k < tokenize_spec(s).len() ==> #[trigger] is_segment(tokenize_spec(s)[k]),
{
    lemma_tokenize_from_yields_segments(s, Seq::empty());
}

/// Generalization over the pending segment: scanning from a slash-free
/// pending segment yields only path segments.
proof fn lemma_tokenize_from_yields_segments(s: Seq<char>, cur: Seq<char>)
    requires
        forall|i: int| 0 <= i < cur.len() ==> cur[i] != '/',
    ensures
        forall|k: int|
            0 <= k < tokenize_from(s, cur).len() ==> #[trigger] is_segment(tokenize_from(s, cur)[k]),
    decreases s.len(),
{
    if s.len() == 0 {
        assert forall|k: int|
            0 <= k < tokenize_from(s, cur).len() implies #[trigger] is_segment(
            tokenize_from(s, cur)[k],
        ) by {
            assert(cur.len() > 0);
            assert(is_segment(cur));
            assert(tokenize_from(s, cur)[k] == cur);
        }
    } else if s[0] == '/' {
        lemma_tokenize_from_yields_segments(s.skip(1), Seq::empty());
        let closed = emitted(cur);
        let remaining = tokenize_from(s.skip(1), Seq::empty());
        assert forall|k: int|
            0 <= k < tokenize_from(s, cur).len() implies #[trigger] is_segment(
            tokenize_from(s, cur)[k],
        ) by {
            assert(tokenize_from(s, cur) == closed + remaining);
            if k < closed.len() {
                assert(cur.len() > 0);
                assert(is_segment(cur));
                assert((closed + remaining)[k] == cur);
            } else {
                assert((closed + remaining)[k] == remaining[k - closed.len()]);
                assert(is_segment(remaining[k - closed.len()]));
            }
        }
    } else {
        assert(forall|i: int| 0 <= i < cur.push(s[0]).len() ==> cur.push(s[0])[i] != '/');
        lemma_tokenize_from_yields_segments(s.skip(1), cur.push(s[0]));
        assert forall|k: int|
            0 <= k < tokenize_from(s, cur).len() implies #[trigger] is_segment(
            tokenize_from(s, cur)[k],
        ) by {
            assert(tokenize_from(s, cur) == tokenize_from(s.skip(1), cur.push(s[0])));
            assert(is_segment(tokenize_from(s.skip(1), cur.push(s[0]))[k]));
        }
    }
}

/// Relies on std's `String::from_utf8`: it succeeds exactly on valid UTF-8
/// input and returns the text those bytes encode.
#[verifier::external_body]
fn decode_utf8_bytes(bytes: &[u8]) -> (r: Result<String, FfiError>)
    ensures
        r is Ok <==> vstd::utf8::valid_utf8(bytes@),
        r matches Ok(s) ==> s@ == vstd::utf8::decode_utf8(bytes@),
        r matches Err(e) ==> e == FfiError::DecodingError,
{
    String::from_utf8(bytes.to_vec()).map_err(|_| FfiError::DecodingError)
}

/// Decodes the raw path bytes and splits the text into its non-empty
/// `/`-separated segments; bytes that are not valid text are rejected.
pub fn path_tokeniser(path: &[u8]) -> (r: Result<Vec<String>, FfiError>)
    ensures
        r is Ok <==> vstd::utf8::valid_utf8(path@),
        r matches Ok(v) ==> v.deep_view() == tokenize_spec(vstd::utf8::decode_utf8(path@)),
        r matches Err(e) ==> e == FfiError::DecodingError,
{
    match decode_utf8_bytes(path) {
        Ok(text) => Ok(tokenise_str(text.as_str())),
        Err(e) => Err(e),
    }
}

} // verus!
