//! The `text/uri-list` codec.
//!
//! `encode` turns an ordered sequence of canonical paths into the interchange
//! payload the drag-and-drop subsystem expects: one percent-encoded
//! `file://` URI per path, LF-separated, with no trailing separator.
//! `decode` reads such a payload back, skipping every line that does not
//! resolve to a local path — payloads arriving from unknown senders are not
//! trusted, so a bad line is never fatal to the batch.
//!
//! The URI syntax itself comes from the `url` crate; the trusted wrappers
//! below name its results, and everything around them is verified.

use vstd::prelude::*;

use crate::paths::{has_drive_letter_quirk, is_canonical_path};

verus! {

/// The serialization of the `file://` URI that the `url` crate builds for an
/// absolute path: `url::Url::from_file_path` followed by serializing.
pub uninterp spec fn uri_of(path: Seq<char>) -> Seq<char>;

/// The scheme that `url::Url::parse` reads out of a line, when the line
/// parses at all.
pub uninterp spec fn scheme_of(line: Seq<char>) -> Option<Seq<char>>;

/// The local path that a line resolves to through `url::Url::parse`,
/// `url::Url::to_file_path` and UTF-8 conversion, when every step succeeds.
pub uninterp spec fn path_of_uri(line: Seq<char>) -> Option<Seq<char>>;

/// No line feed and no carriage return anywhere in `s`.
pub open spec fn nl_cr_free(s: Seq<char>) -> bool {
    forall|i: int| 0 <= i < s.len() ==> s[i] != '\n' && s[i] != '\r'
}

/// No line feed anywhere in `s`.
pub open spec fn nl_free(s: Seq<char>) -> bool {
    forall|i: int| 0 <= i < s.len() ==> s[i] != '\n'
}

/// Split on `\n` exactly as `str::split('\n')` does: the empty sequence has
/// one (empty) piece, and every separator opens a new piece.
pub open spec fn split_nl(s: Seq<char>) -> Seq<Seq<char>>
    decreases s.len(),
{
    if s.len() == 0 {
        seq![Seq::<char>::empty()]
    } else if s[0] == '\n' {
        seq![Seq::<char>::empty()] + split_nl(s.drop_first())
    } else {
        let rest = split_nl(s.drop_first());
        seq![seq![s[0]] + rest[0]] + rest.drop_first()
    }
}

/// Drop a single trailing carriage return, which the wire format tolerates.
pub open spec fn strip_cr(line: Seq<char>) -> Seq<char> {
    if line.len() > 0 && line.last() == '\r' {
        line.drop_last()
    } else {
        line
    }
}

/// What one payload line contributes: its resolved local path, or nothing
/// when the line is empty, is not a URI, or is not in the `file` scheme.
pub open spec fn line_to_path(line: Seq<char>) -> Option<Seq<char>> {
    let l = strip_cr(line);
    if l.len() == 0 {
        None
    } else if scheme_of(l) == Some("file"@) {
        path_of_uri(l)
    } else {
        None
    }
}

/// The paths contributed by a sequence of lines, in line order.
pub open spec fn decode_lines(lines: Seq<Seq<char>>) -> Seq<Seq<char>>
    decreases lines.len(),
{
    if lines.len() == 0 {
        Seq::empty()
    } else {
        match line_to_path(lines[0]) {
            Some(p) => seq![p] + decode_lines(lines.drop_first()),
            None => decode_lines(lines.drop_first()),
        }
    }
}

/// What `decode` returns for a payload.
pub open spec fn decode_spec(payload: Seq<char>) -> Seq<Seq<char>> {
    decode_lines(split_nl(payload))
}

/// What `encode` returns for a path sequence: the URIs joined by a single
/// line feed, with no trailing separator.
pub open spec fn encode_spec(paths: Seq<Seq<char>>) -> Seq<char>
    decreases paths.len(),
{
    if paths.len() == 0 {
        Seq::empty()
    } else if paths.len() == 1 {
        uri_of(paths[0])
    } else {
        uri_of(paths[0]) + seq!['\n'] + encode_spec(paths.drop_first())
    }
}

/// The URI built for `p` is a well-formed payload line: non-empty, free of
/// separators, and in the `file` scheme.
pub open spec fn uri_line_ok(p: Seq<char>) -> bool {
    &&& uri_of(p).len() > 0
    &&& nl_cr_free(uri_of(p))
    &&& scheme_of(uri_of(p)) == Some("file"@)
}

/// The URI built for `p` resolves back to `p` itself.
pub open spec fn uri_round_trips(p: Seq<char>) -> bool {
    path_of_uri(uri_of(p)) == Some(p)
}

/// Relies on `url::Url::from_file_path` and the `Url` serialization: an
/// absolute path with no `.`/`..`/empty segments becomes a `file://` URI
/// whose path segments are percent-encoded (so the serialization is
/// non-empty and contains no line feed or carriage return), and — except
/// when the path falls under the Windows drive-letter rewrites of the URL
/// parser and of `url::Url::to_file_path` — parsing that URI back through
/// `url::Url::to_file_path` yields the very path it was built from.
#[verifier::external_body]
fn path_to_uri(path: &str) -> (r: String)
    requires
        is_canonical_path(path@),
    ensures
        r@ == uri_of(path@),
        r@.len() > 0,
        nl_cr_free(r@),
        scheme_of(r@) == Some("file"@),
        !has_drive_letter_quirk(path@) ==> path_of_uri(r@) == Some(path@),
{
    match url::Url::from_file_path(std::path::Path::new(path)) {
        Ok(u) => String::from(u),
        Err(()) => String::new(),
    }
}

/// Relies on `url::Url::parse` and `url::Url::scheme`: the scheme of a line,
/// a function of the line alone, or nothing when the line does not parse.
#[verifier::external_body]
fn uri_scheme(line: &str) -> (r: Option<String>)
    ensures
        r is Some <==> scheme_of(line@) is Some,
        r matches Some(s) ==> Some(s@) == scheme_of(line@),
{
    match url::Url::parse(line) {
        Ok(u) => Some(u.scheme().to_owned()),
        Err(_) => None,
    }
}

/// Relies on `url::Url::parse`, `url::Url::to_file_path` and
/// `OsString::into_string`: the local path a line resolves to, a function of
/// the line alone, or nothing when any step refuses the line.
#[verifier::external_body]
fn uri_to_path(line: &str) -> (r: Option<String>)
    ensures
        r is Some <==> path_of_uri(line@) is Some,
        r matches Some(p) ==> Some(p@) == path_of_uri(line@),
{
    match url::Url::parse(line) {
        Ok(u) => match u.to_file_path() {
            Ok(p) => p.into_os_string().into_string().ok(),
            Err(()) => None,
        },
        Err(_) => None,
    }
}

/// Resolve one payload line, exactly as `line_to_path` says: strip one
/// trailing carriage return, skip empty lines, accept only the `file`
/// scheme.
pub fn decode_line(line: &str) -> (r: Option<String>)
    ensures
        r is Some <==> line_to_path(line@) is Some,
        r matches Some(p) ==> Some(p@) == line_to_path(line@),
{
    let n = line.unicode_len();
    let stripped: &str = if n > 0 && line.get_char(n - 1) == '\r' {
        line.substring_char(0, n - 1)
    } else {
        line
    };
    proof {
        assert(stripped@ =~= strip_cr(line@));
    }
    if stripped.unicode_len() == 0 {
        return None;
    }
    let file_scheme = String::from_str("file");
    match uri_scheme(stripped) {
        Some(scheme) => {
            if scheme == file_scheme {
                uri_to_path(stripped)
            } else {
                None
            }
        },
        None => None,
    }
}

/// Splitting a line-feed-free piece yields that piece alone.
proof fn lemma_split_nl_whole(s: Seq<char>)
    requires
        nl_free(s),
    ensures
        split_nl(s) == seq![s],
    decreases s.len(),
{
    if s.len() == 0 {
        assert(s =~= Seq::<char>::empty());
        assert(split_nl(s) =~= seq![s]);
    } else {
        lemma_split_nl_whole(s.drop_first());
        assert(split_nl(s) =~= seq![seq![s[0]] + s.drop_first()]);
        assert(seq![s[0]] + s.drop_first() =~= s);
        assert(split_nl(s) =~= seq![s]);
    }
}

/// A payload that starts with a line-feed-free piece and a separator splits
/// into that piece followed by the split of the rest.
proof fn lemma_split_nl_concat(a: Seq<char>, b: Seq<char>)
    requires
        nl_free(a),
    ensures
        split_nl(a + seq!['\n'] + b) == seq![a] + split_nl(b),
    decreases a.len(),
{
    let s = a + seq!['\n'] + b;
    if a.len() == 0 {
        assert(a =~= Seq::<char>::empty());
        assert(s[0] == '\n');
        assert(s.drop_first() =~= b);
        assert(split_nl(s) == seq![Seq::<char>::empty()] + split_nl(b));
        assert(seq![a] + split_nl(b) =~= seq![Seq::<char>::empty()] + split_nl(b));
    } else {
        assert(s[0] == a[0]);
        assert(s[0] != '\n');
        assert(s.drop_first() =~= a.drop_first() + seq!['\n'] + b);
        lemma_split_nl_concat(a.drop_first(), b);
        let rest = split_nl(s.drop_first());
        assert(rest == seq![a.drop_first()] + split_nl(b));
        assert(rest[0] == a.drop_first());
        assert(seq![s[0]] + rest[0] =~= a);
        assert(rest.drop_first() =~= split_nl(b));
        assert(split_nl(s) =~= seq![a] + split_nl(b));
    }
}

/// Decoding distributes over concatenation of line sequences.
proof fn lemma_decode_lines_concat(x: Seq<Seq<char>>, y: Seq<Seq<char>>)
    ensures
        decode_lines(x + y) == decode_lines(x) + decode_lines(y),
    decreases x.len(),
{
    if x.len() == 0 {
        assert(x + y =~= y);
        assert(decode_lines(x) =~= Seq::<Seq<char>>::empty());
        assert(decode_lines(x) + decode_lines(y) =~= decode_lines(y));
    } else {
        assert((x + y).drop_first() =~= x.drop_first() + y);
        lemma_decode_lines_concat(x.drop_first(), y);
        assert((x + y)[0] == x[0]);
        match line_to_path(x[0]) {
            Some(p) => {
                assert(decode_lines(x + y) =~= seq![p] + (decode_lines(x.drop_first())
                    + decode_lines(y)));
                assert(decode_lines(x) + decode_lines(y) =~= seq![p] + (decode_lines(
                    x.drop_first(),
                ) + decode_lines(y)));
            },
            None => {},
        }
    }
}

/// One well-formed URI line decodes to exactly its path.
proof fn lemma_decode_one_uri(p: Seq<char>)
    requires
        uri_line_ok(p),
        uri_round_trips(p),
    ensures
        decode_lines(seq![uri_of(p)]) == seq![p],
{
    let u = uri_of(p);
    assert(strip_cr(u) == u);
    assert(line_to_path(u) == Some(p));
    assert(decode_lines(seq![u]) =~= seq![p] + decode_lines(seq![u].drop_first()));
    assert(seq![u].drop_first() =~= Seq::<Seq<char>>::empty());
    assert(decode_lines(seq![u]) =~= seq![p]);
}

/// The round-trip law at the level of the wire format: a payload encoded
/// from well-formed, round-tripping paths decodes to those very paths.
proof fn lemma_decode_encode(ps: Seq<Seq<char>>)
    requires
        forall|i: int| 0 <= i < ps.len() ==> uri_line_ok(#[trigger] ps[i]),
        forall|i: int| 0 <= i < ps.len() ==> uri_round_trips(#[trigger] ps[i]),
    ensures
        decode_spec(encode_spec(ps)) == ps,
    decreases ps.len(),
{
    if ps.len() == 0 {
        assert(encode_spec(ps) == Seq::<char>::empty());
        assert(split_nl(Seq::<char>::empty()) == seq![Seq::<char>::empty()]);
        lemma_decode_lines_one(Seq::<char>::empty());
        assert(line_to_path(Seq::<char>::empty()) is None);
        assert(decode_spec(encode_spec(ps)) =~= ps);
    } else if ps.len() == 1 {
        assert(encode_spec(ps) == uri_of(ps[0]));
        lemma_split_nl_whole(uri_of(ps[0]));
        assert(split_nl(encode_spec(ps)) == seq![uri_of(ps[0])]);
        lemma_decode_one_uri(ps[0]);
        assert(decode_lines(seq![uri_of(ps[0])]) == seq![ps[0]]);
        assert(decode_spec(encode_spec(ps)) =~= ps);
    } else {
        let u = uri_of(ps[0]);
        let rest = encode_spec(ps.drop_first());
        assert(encode_spec(ps) == u + seq!['\n'] + rest);
        lemma_split_nl_concat(u, rest);
        lemma_decode_lines_concat(seq![u], split_nl(rest));
        lemma_decode_one_uri(ps[0]);
        lemma_decode_encode(ps.drop_first());
        assert(decode_spec(encode_spec(ps)) =~= seq![ps[0]] + ps.drop_first());
        assert(seq![ps[0]] + ps.drop_first() =~= ps);
    }
}

/// `encode_spec` grows at the back: appending one more path appends one more
/// URI, behind a separator when the sequence was non-empty.
proof fn lemma_encode_snoc(ps: Seq<Seq<char>>, p: Seq<char>)
    ensures
        encode_spec(ps.push(p)) == if ps.len() == 0 {
            uri_of(p)
        } else {
            encode_spec(ps) + seq!['\n'] + uri_of(p)
        },
    decreases ps.len(),
{
    if ps.len() == 0 {
        assert(ps.push(p).len() == 1);
        assert(ps.push(p)[0] == p);
    } else {
        assert(ps.push(p).drop_first() =~= ps.drop_first().push(p));
        lemma_encode_snoc(ps.drop_first(), p);
        assert(ps.push(p)[0] == ps[0]);
        if ps.len() == 1 {
            assert(ps.drop_first().len() == 0);
            assert(encode_spec(ps.push(p)) == uri_of(ps[0]) + seq!['\n'] + uri_of(p));
            assert(encode_spec(ps) == uri_of(ps[0]));
        } else {
            assert(encode_spec(ps.push(p)) == uri_of(ps[0]) + seq!['\n'] + (encode_spec(
                ps.drop_first(),
            ) + seq!['\n'] + uri_of(p)));
            assert(encode_spec(ps) + seq!['\n'] + uri_of(p) == (uri_of(ps[0]) + seq!['\n']
                + encode_spec(ps.drop_first())) + seq!['\n'] + uri_of(p));
            assert(uri_of(ps[0]) + seq!['\n'] + (encode_spec(ps.drop_first()) + seq!['\n']
                + uri_of(p)) =~= (uri_of(ps[0]) + seq!['\n'] + encode_spec(ps.drop_first()))
                + seq!['\n'] + uri_of(p));
        }
    }
}

/// Encode a sequence of canonical paths as a `text/uri-list` payload.
///
/// An empty sequence encodes to an empty payload. For any input whose paths
/// avoid the Windows drive-letter quirks, decoding the returned payload
/// yields exactly the input paths, in order, duplicates preserved.
pub fn encode(paths: &Vec<String>) -> (r: String)
    requires
        forall|i: int| 0 <= i < paths.deep_view().len() ==> is_canonical_path(
            #[trigger] paths.deep_view()[i],
        ),
    ensures
        r@ == encode_spec(paths.deep_view()),
        paths.deep_view().len() == 0 ==> r@.len() == 0,
        (forall|i: int| 0 <= i < paths.deep_view().len() ==> !has_drive_letter_quirk(
            #[trigger] paths.deep_view()[i],
        )) ==> decode_spec(r@) == paths.deep_view(),
{
    let ghost dv: Seq<Seq<char>> = paths.deep_view();
    let mut r = String::new();
    let n = paths.len();
    proof {
        assert(dv.take(0) =~= Seq::<Seq<char>>::empty());
    }
    for j in 0..n
        invariant
            n == paths@.len(),
            dv == paths.deep_view(),
            dv.len() == n,
            forall|i: int| 0 <= i < dv.len() ==> is_canonical_path(#[trigger] dv[i]),
            r@ == encode_spec(dv.take(j as int)),
            forall|k: int| 0 <= k < j ==> uri_line_ok(#[trigger] dv[k]),
            forall|k: int|
                0 <= k < j && !has_drive_letter_quirk(#[trigger] dv[k]) ==> uri_round_trips(
                    dv[k],
                ),
    {
        proof {
            assert(paths@[j as int]@ == dv[j as int]);
        }
        let uri = path_to_uri(paths[j].as_str());
        proof {
            lemma_encode_snoc(dv.take(j as int), dv[j as int]);
            assert(dv.take(j as int).push(dv[j as int]) =~= dv.take(j as int + 1));
            reveal_strlit("\n");
        }
        if j > 0 {
            r.append("\n");
        }
        r.append(uri.as_str());
        proof {
            if j == 0 {
                assert(dv.take(0).len() == 0);
                assert(r@ =~= encode_spec(dv.take(1)));
            } else {
                assert(r@ =~= encode_spec(dv.take(j as int)) + seq!['\n'] + uri_of(
                    dv[j as int],
                ));
            }
        }
    }
    proof {
        assert(dv.take(n as int) =~= dv);
        if forall|i: int| 0 <= i < dv.len() ==> !has_drive_letter_quirk(#[trigger] dv[i]) {
            lemma_decode_encode(dv);
        }
    }
    r
}

/// Decode a `text/uri-list` payload into the local paths it names, in line
/// order. Lines that are empty, fail to parse, use a scheme other than
/// `file`, or do not resolve to a local path are skipped; an empty payload
/// decodes to an empty sequence.
pub fn decode(payload: &str) -> (r: Vec<String>)
    ensures
        r.deep_view() == decode_spec(payload@),
        payload@.len() == 0 ==> r@.len() == 0,
{
    let n = payload.unicode_len();
    let mut out: Vec<String> = Vec::new();
    let mut start: usize = 0;
    proof {
        assert(payload@.skip(0) =~= payload@);
        if payload@.len() == 0 {
            assert(payload@ =~= Seq::<char>::empty());
            assert(split_nl(payload@) == seq![Seq::<char>::empty()]);
            lemma_decode_lines_one(Seq::<char>::empty());
        }
    }
    loop
        invariant_except_break
            n == payload@.len(),
            start <= n,
            out.deep_view() + decode_spec(payload@.skip(start as int)) == decode_spec(
                payload@,
            ),
        ensures
            out.deep_view() == decode_spec(payload@),
        decreases n - start,
    {
        let mut j: usize = start;
        while j < n && payload.get_char(j) != '\n'
            invariant
                n == payload@.len(),
                start <= j <= n,
                forall|k: int| start <= k < j ==> payload@[k] != '\n',
            decreases n - j,
        {
            j += 1;
        }
        let line = payload.substring_char(start, j);
        let ghost lv: Seq<char> = payload@.subrange(start as int, j as int);
        proof {
            assert(line@ == lv);
            assert(nl_free(lv));
        }
        let piece = decode_line(line);
        let ghost before: Seq<Seq<char>> = out.deep_view();
        match piece {
            Some(p) => {
                let ghost pv: Seq<char> = p@;
                out.push(p);
                proof {
                    assert(out.deep_view() =~= before.push(pv));
                }
            },
            None => {},
        }
        proof {
            let tail = payload@.skip(j as int + 1);
            if j < n {
                assert(payload@[j as int] == '\n');
                assert(payload@.skip(start as int) =~= lv + seq!['\n'] + tail);
                lemma_split_nl_concat(lv, tail);
                lemma_decode_lines_concat(seq![lv], split_nl(tail));
                lemma_decode_lines_one(lv);
                assert(decode_spec(payload@.skip(start as int)) == decode_lines(seq![lv])
                    + decode_spec(tail));
            } else {
                assert(payload@.skip(start as int) =~= lv);
                lemma_split_nl_whole(lv);
                lemma_decode_lines_one(lv);
                assert(decode_spec(payload@.skip(start as int)) == decode_lines(seq![lv]));
            }
            match line_to_path(lv) {
                Some(pp) => {
                    assert(decode_lines(seq![lv]) =~= seq![pp]);
                    assert(out.deep_view() =~= before.push(pp));
                    assert(before + seq![pp] =~= out.deep_view());
                },
                None => {
                    assert(decode_lines(seq![lv]) =~= Seq::<Seq<char>>::empty());
                    assert(out.deep_view() == before);
                },
            }
        }
        if j == n {
            proof {
                assert(out.deep_view() == decode_spec(payload@));
            }
            break ;
        }
        start = j + 1;
        proof {
            assert(out.deep_view() + decode_spec(payload@.skip(start as int)) == decode_spec(
                payload@,
            ));
        }
    }
    out
}

/// The lines of a payload as the platform's line reader hands them out:
/// split on `\n`, a carriage return before a line feed stripped, and no
/// final empty line when the payload ends in a separator.
pub open spec fn std_lines(s: Seq<char>) -> Seq<Seq<char>> {
    let parts = split_nl(s);
    let body = parts.drop_last().map_values(|l: Seq<char>| strip_cr(l));
    if parts.last() == Seq::<char>::empty() {
        body
    } else {
        body.push(parts.last())
    }
}

/// Splitting always yields at least one piece.
proof fn lemma_split_nl_len(s: Seq<char>)
    ensures
        split_nl(s).len() >= 1,
    decreases s.len(),
{
    if s.len() == 0 {
    } else if s[0] == '\n' {
        lemma_split_nl_len(s.drop_first());
    } else {
        lemma_split_nl_len(s.drop_first());
    }
}

/// Reading lines off the front: a line-feed-free piece, a separator, and a
/// rest contribute the stripped piece and then the lines of the rest.
proof fn lemma_std_lines_step(lv: Seq<char>, rest: Seq<char>)
    requires
        nl_free(lv),
    ensures
        std_lines(lv + seq!['\n'] + rest) == seq![strip_cr(lv)] + std_lines(rest),
{
    lemma_split_nl_concat(lv, rest);
    lemma_split_nl_len(rest);
    let parts = split_nl(lv + seq!['\n'] + rest);
    let tail = split_nl(rest);
    assert(parts == seq![lv] + tail);
    assert(parts.last() == tail.last());
    assert(parts.drop_last() =~= seq![lv] + tail.drop_last());
    assert(parts.drop_last().map_values(|l: Seq<char>| strip_cr(l)) =~= seq![strip_cr(lv)]
        + tail.drop_last().map_values(|l: Seq<char>| strip_cr(l)));
    if parts.last() == Seq::<char>::empty() {
        assert(std_lines(lv + seq!['\n'] + rest) =~= seq![strip_cr(lv)] + std_lines(rest));
    } else {
        assert(std_lines(lv + seq!['\n'] + rest) =~= (seq![strip_cr(lv)] + tail.drop_last().map_values(
            |l: Seq<char>| strip_cr(l),
        )).push(tail.last()));
        assert(std_lines(rest) =~= tail.drop_last().map_values(|l: Seq<char>| strip_cr(l)).push(
            tail.last(),
        ));
        assert(std_lines(lv + seq!['\n'] + rest) =~= seq![strip_cr(lv)] + std_lines(rest));
    }
}

/// A payload without separators is one raw line, or none when empty.
proof fn lemma_std_lines_whole(lv: Seq<char>)
    requires
        nl_free(lv),
    ensures
        std_lines(lv) == if lv.len() == 0 {
            Seq::<Seq<char>>::empty()
        } else {
            seq![lv]
        },
{
    lemma_split_nl_whole(lv);
    let parts = split_nl(lv);
    assert(parts == seq![lv]);
    assert(parts.last() == lv);
    assert(parts.drop_last() =~= Seq::<Seq<char>>::empty());
    assert(parts.drop_last().map_values(|l: Seq<char>| strip_cr(l)) =~= Seq::<Seq<char>>::empty());
    if lv.len() == 0 {
        assert(lv =~= Seq::<char>::empty());
        assert(std_lines(lv) =~= Seq::<Seq<char>>::empty());
    } else {
        assert(lv != Seq::<char>::empty());
        assert(std_lines(lv) =~= seq![lv]);
    }
}

/// The payload's lines, exactly as the platform's line reader would hand
/// them to be printed: split on `\n`, a carriage return before a line feed
/// stripped, no final empty line.
pub fn payload_lines(payload: &str) -> (r: Vec<String>)
    ensures
        r.deep_view() == std_lines(payload@),
{
    let n = payload.unicode_len();
    let mut out: Vec<String> = Vec::new();
    let mut start: usize = 0;
    proof {
        assert(payload@.skip(0) =~= payload@);
    }
    loop
        invariant_except_break
            n == payload@.len(),
            start <= n,
            out.deep_view() + std_lines(payload@.skip(start as int)) == std_lines(payload@),
        ensures
            out.deep_view() == std_lines(payload@),
        decreases n - start,
    {
        let mut j: usize = start;
        while j < n && payload.get_char(j) != '\n'
            invariant
                n == payload@.len(),
                start <= j <= n,
                forall|k: int| start <= k < j ==> payload@[k] != '\n',
            decreases n - j,
        {
            j += 1;
        }
        let line = payload.substring_char(start, j);
        let ghost lv: Seq<char> = payload@.subrange(start as int, j as int);
        proof {
            assert(line@ == lv);
            assert(nl_free(lv));
        }
        let ghost before: Seq<Seq<char>> = out.deep_view();
        if j < n {
            let m = line.unicode_len();
            let piece: &str = if m > 0 && line.get_char(m - 1) == '\r' {
                line.substring_char(0, m - 1)
            } else {
                line
            };
            proof {
                assert(piece@ =~= strip_cr(lv));
            }
            out.push(piece.to_owned());
            proof {
                let tail = payload@.skip(j as int + 1);
                assert(payload@[j as int] == '\n');
                assert(payload@.skip(start as int) =~= lv + seq!['\n'] + tail);
                lemma_std_lines_step(lv, tail);
                assert(out.deep_view() =~= before.push(strip_cr(lv)));
                assert(before.push(strip_cr(lv)) =~= before + seq![strip_cr(lv)]);
            }
            start = j + 1;
        } else {
            proof {
                assert(payload@.skip(start as int) =~= lv);
                lemma_std_lines_whole(lv);
            }
            if line.unicode_len() > 0 {
                out.push(line.to_owned());
                proof {
                    assert(out.deep_view() =~= before + seq![lv]);
                }
            }
            proof {
                assert(out.deep_view() == std_lines(payload@));
            }
            break ;
        }
    }
    out
}

/// A one-line sequence decodes to what that line contributes.
proof fn lemma_decode_lines_one(l: Seq<char>)
    ensures
        decode_lines(seq![l]) == match line_to_path(l) {
            Some(p) => seq![p],
            None => Seq::<Seq<char>>::empty(),
        },
{
    let rest = seq![l].drop_first();
    assert(rest =~= Seq::<Seq<char>>::empty());
    assert(decode_lines(rest) == Seq::<Seq<char>>::empty());
    assert(seq![l][0] == l);
    match line_to_path(l) {
        Some(p) => {
            assert(decode_lines(seq![l]) =~= seq![p]);
        },
        None => {
            assert(decode_lines(seq![l]) =~= Seq::<Seq<char>>::empty());
        },
    }
}

} // verus!
