//! Path templates: the canonical form of a route path and the names of its
//! parameters.
//!
//! A raw path is cut at `/`; empty segments are dropped. A segment `:name`
//! becomes `{name}`, a segment `{..}` stays, a segment that starts with `*`
//! is put in braces (`*name` gives `{*name}`, `**name` gives `{**name}`), and
//! any other segment is percent-encoded.

use crate::percent::{
    encode_segment, lemma_percent_encode_slash, lemma_percent_encode_text_concat,
    lemma_percent_round_trip, percent_decode_text, percent_encode_text,
};
use crate::text::{
    ends_with_char, lemma_split_concat, lemma_split_one, skip_char, skip_whitespace,
    skip_whitespace_back, split, split_str, starts_with_char, strip_leading, substring, to_chars,
    trim,
};
use vstd::prelude::*;
use vstd::string::*;

verus! {

/// A text put between `{` and `}`.
pub open spec fn braced(inner: Seq<char>) -> Seq<char> {
    seq!['{'] + inner + seq!['}']
}

/// Whether a segment starts with `{` and ends with `}`.
pub open spec fn is_placeholder(seg: Seq<char>) -> bool {
    seg.len() > 0 && seg[0] == '{' && seg.last() == '}'
}

/// The canonical form of one non-empty segment.
pub open spec fn normalize_segment(seg: Seq<char>) -> Seq<char> {
    if seg.len() > 0 && seg[0] == ':' {
        let name = trim(seg.skip(1));
        if name.len() == 0 {
            seg
        } else {
            braced(name)
        }
    } else if is_placeholder(seg) {
        seg
    } else if seg.len() > 0 && seg[0] == '*' {
        braced(seg)
    } else {
        percent_encode_text(seg)
    }
}

/// What one segment adds to the pattern: nothing if it is empty, else `/`
/// and its canonical form.
pub open spec fn piece(seg: Seq<char>) -> Seq<char> {
    if seg.len() == 0 {
        Seq::empty()
    } else {
        seq!['/'] + normalize_segment(seg)
    }
}

/// The pieces of all segments, in order.
pub open spec fn render(segs: Seq<Seq<char>>) -> Seq<char>
    decreases segs.len(),
{
    if segs.len() == 0 {
        Seq::empty()
    } else {
        render(segs.drop_last()) + piece(segs.last())
    }
}

/// The canonical pattern of a raw path. A path without a non-empty segment
/// gives the root pattern `/`.
pub open spec fn normalized(path: Seq<char>) -> Seq<char> {
    let out = render(split(path, '/'));
    if out.len() == 0 {
        seq!['/']
    } else {
        out
    }
}

/// The parameter that a segment of a pattern declares, if it is a
/// placeholder: what stands between the braces, without leading `*`.
pub open spec fn param_name(seg: Seq<char>) -> Option<Seq<char>> {
    if is_placeholder(seg) {
        Some(strip_leading(seg.subrange(1, seg.len() - 1), '*'))
    } else {
        None
    }
}

/// The parameters that the segments declare, from left to right.
pub open spec fn params_of(segs: Seq<Seq<char>>) -> Seq<Seq<char>>
    decreases segs.len(),
{
    if segs.len() == 0 {
        Seq::empty()
    } else {
        match param_name(segs.last()) {
            Some(name) => params_of(segs.drop_last()).push(name),
            None => params_of(segs.drop_last()),
        }
    }
}

/// The parameter names of a pattern, from left to right.
pub open spec fn params(pattern: Seq<char>) -> Seq<Seq<char>> {
    params_of(split(pattern, '/'))
}

/// A prefix and a sub-path put together, with exactly one `/` added where
/// neither the prefix ends nor the sub-path starts with one.
pub open spec fn joined(prefix: Seq<char>, sub: Seq<char>) -> Seq<char> {
    if (prefix.len() > 0 && prefix.last() == '/') || (sub.len() > 0 && sub[0] == '/') {
        prefix + sub
    } else {
        prefix + seq!['/'] + sub
    }
}

/// Joins a controller's prefix and a route's own path.
pub fn join_path(prefix: &str, sub: &str) -> (res: String)
    ensures
        res@ == joined(prefix@, sub@),
{
    let mut res = String::new();
    res.append(prefix);
    if !ends_with_char(prefix, '/') && !starts_with_char(sub, '/') {
        res.push('/');
    }
    res.append(sub);
    proof {
        assert(res@ =~= joined(prefix@, sub@));
    }
    res
}

/// The canonical form of one segment of a raw path.
pub fn normalize_one(seg: &str) -> (out: String)
    ensures
        out@ == normalize_segment(seg@),
{
    let chars = to_chars(seg);
    let n = chars.len();
    if n > 0 && chars[0] == ':' {
        let a = skip_whitespace(&chars, 1, n);
        let b = skip_whitespace_back(&chars, a, n);
        proof {
            assert(chars@.subrange(1, n as int) =~= seg@.skip(1));
        }
        if a == b {
            proof {
                assert(chars@.subrange(a as int, b as int) =~= Seq::<char>::empty());
            }
            seg.to_owned()
        } else {
            let name = substring(&chars, a, b);
            let mut out = String::new();
            out.push('{');
            out.append(name.as_str());
            out.push('}');
            proof {
                assert(out@ =~= braced(name@));
            }
            out
        }
    } else if n > 0 && chars[0] == '{' && chars[n - 1] == '}' {
        seg.to_owned()
    } else if n > 0 && chars[0] == '*' {
        let mut out = String::new();
        out.push('{');
        out.append(seg);
        out.push('}');
        proof {
            assert(out@ =~= braced(seg@));
        }
        out
    } else {
        encode_segment(seg)
    }
}

/// Brings a raw route path into its canonical form.
pub fn normalize_path(path: &str) -> (pattern: String)
    ensures
        pattern@ == normalized(path@),
{
    let segments = split_str(path, '/');
    let mut out = String::new();
    let mut i: usize = 0;
    while i < segments.len()
        invariant
            i <= segments.len(),
            segments.deep_view() == split(path@, '/'),
            out@ == render(segments.deep_view().take(i as int)),
        decreases segments.len() - i,
    {
        let seg = segments[i].as_str();
        proof {
            let done = segments.deep_view().take(i + 1);
            assert(done.drop_last() =~= segments.deep_view().take(i as int));
            assert(done.last() == seg@);
        }
        if !seg.is_empty() {
            let canonical = normalize_one(seg);
            out.push('/');
            out.append(canonical.as_str());
            proof {
                assert(out@ =~= render(segments.deep_view().take(i as int)) + piece(seg@));
            }
        } else {
            proof {
                assert(out@ =~= render(segments.deep_view().take(i as int)) + piece(seg@));
            }
        }
        i += 1;
    }
    proof {
        assert(segments.deep_view().take(i as int) =~= segments.deep_view());
    }
    if out.as_str().is_empty() {
        out.push('/');
        proof {
            assert(out@ =~= seq!['/']);
        }
    }
    out
}

/// The parameter names that a pattern declares, from left to right.
pub fn extract_params(path: &str) -> (names: Vec<String>)
    ensures
        names.deep_view() == params(path@),
{
    let segments = split_str(path, '/');
    let mut names: Vec<String> = Vec::new();
    let mut i: usize = 0;
    while i < segments.len()
        invariant
            i <= segments.len(),
            segments.deep_view() == split(path@, '/'),
            names.deep_view() == params_of(segments.deep_view().take(i as int)),
        decreases segments.len() - i,
    {
        let chars = to_chars(segments[i].as_str());
        let n = chars.len();
        proof {
            let done = segments.deep_view().take(i + 1);
            assert(done.drop_last() =~= segments.deep_view().take(i as int));
            assert(done.last() == chars@);
        }
        if n > 0 && chars[0] == '{' && chars[n - 1] == '}' {
            let at = skip_char(&chars, 1, n - 1, '*');
            let name = substring(&chars, at, n - 1);
            let ghost before = names.deep_view();
            names.push(name);
            proof {
                assert(names.deep_view() =~= before.push(name@));
            }
        }
        i += 1;
    }
    proof {
        assert(segments.deep_view().take(i as int) =~= segments.deep_view());
    }
    names
}

/// Compiles a raw path: its canonical pattern and the pattern's parameter
/// names in order.
pub fn compile(raw: &str) -> (compiled: (String, Vec<String>))
    ensures
        compiled.0@ == normalized(raw@),
        compiled.1.deep_view() == params(normalized(raw@)),
{
    let pattern = normalize_path(raw);
    let names = extract_params(pattern.as_str());
    (pattern, names)
}

/// Whether a segment writes the parameter `token`: in braces, in the legacy
/// form with a colon, or, for a wildcard, bare.
pub open spec fn writes(seg: Seq<char>, token: Seq<char>) -> bool {
    ||| seg == braced(token)
    ||| (seg == seq![':'] + token && token.len() > 0 && trim(token) == token)
    ||| (seg == token && token.len() > 0 && token[0] == '*')
}

/// Whether two segments are equal or write the same parameter.
pub open spec fn alike(a: Seq<char>, b: Seq<char>) -> bool {
    a == b || exists|token: Seq<char>| writes(a, token) && writes(b, token)
}

/// Every way of writing a parameter has the braced form as its canonical
/// form, and declares the parameter's name without its leading `*`.
pub proof fn lemma_writes_normalizes(seg: Seq<char>, token: Seq<char>)
    requires
        writes(seg, token),
    ensures
        seg.len() > 0,
        normalize_segment(seg) == braced(token),
        param_name(normalize_segment(seg)) == Some(strip_leading(token, '*')),
{
    let b = braced(token);
    assert(b.len() == token.len() + 2);
    assert(b[0] == '{');
    assert(b.last() == '}');
    assert(b.subrange(1, b.len() - 1) =~= token);
    if seg == b {
    } else if seg == seq![':'] + token {
        assert(seg[0] == ':');
        assert(seg.skip(1) =~= token);
    } else {
        assert(seg[0] == '*');
    }
}

/// The pattern of a concatenation of segment lists is the concatenation of
/// their patterns.
pub proof fn lemma_render_concat(a: Seq<Seq<char>>, b: Seq<Seq<char>>)
    ensures
        render(a + b) == render(a) + render(b),
    decreases b.len(),
{
    if b.len() == 0 {
        assert(a + b =~= a);
        assert(render(a) + render(b) =~= render(a));
    } else {
        lemma_render_concat(a, b.drop_last());
        assert((a + b).drop_last() =~= a + b.drop_last());
        assert((a + b).last() == b.last());
        assert(render(a + b) =~= render(a) + render(b));
    }
}

/// Segment lists whose segments add the same pieces give the same pattern.
pub proof fn lemma_render_alike(a: Seq<Seq<char>>, b: Seq<Seq<char>>)
    requires
        a.len() == b.len(),
        forall|i: int| 0 <= i < a.len() ==> piece(#[trigger] a[i]) == piece(b[i]),
    ensures
        render(a) == render(b),
    decreases a.len(),
{
    if a.len() > 0 {
        assert(piece(a[a.len() - 1]) == piece(b[a.len() - 1]));
        assert forall|i: int| 0 <= i < a.drop_last().len() implies piece(
            #[trigger] a.drop_last()[i],
        ) == piece(b.drop_last()[i]) by {
            assert(piece(a[i]) == piece(b[i]));
        }
        lemma_render_alike(a.drop_last(), b.drop_last());
    }
}

/// Two raw paths that differ only in how they write their parameters
/// (`:name` or `{name}`, `*name` or `{*name}`, `**name` or `{**name}`) have
/// the same canonical pattern and the same parameter names.
pub proof fn lemma_parameter_forms_agree(p: Seq<char>, q: Seq<char>)
    requires
        split(p, '/').len() == split(q, '/').len(),
        forall|i: int|
            0 <= i < split(p, '/').len() ==> alike(#[trigger] split(p, '/')[i], split(q, '/')[i]),
    ensures
        normalized(p) == normalized(q),
        params(normalized(p)) == params(normalized(q)),
{
    let a = split(p, '/');
    let b = split(q, '/');
    assert forall|i: int| 0 <= i < a.len() implies piece(#[trigger] a[i]) == piece(b[i]) by {
        assert(alike(a[i], b[i]));
        if a[i] != b[i] {
            let token = choose|token: Seq<char>| writes(a[i], token) && writes(b[i], token);
            lemma_writes_normalizes(a[i], token);
            lemma_writes_normalizes(b[i], token);
        }
    }
    lemma_render_alike(a, b);
}

/// A path that holds nothing but `/` has no non-empty segment.
pub proof fn lemma_slashes_render_empty(path: Seq<char>)
    requires
        forall|i: int| 0 <= i < path.len() ==> path[i] == '/',
    ensures
        render(split(path, '/')) == Seq::<char>::empty(),
    decreases path.len(),
{
    let e = Seq::<char>::empty();
    assert(seq![e].drop_last() =~= Seq::<Seq<char>>::empty());
    assert(seq![e].last() == e);
    assert(render(Seq::<Seq<char>>::empty()) == e);
    assert(piece(e) == e);
    assert(render(seq![e]) =~= e);
    if path.len() == 0 {
        assert(path =~= e);
    } else {
        assert(path[0] == '/');
        assert(path.take(0) =~= e);
        let rest = path.skip(1);
        assert forall|i: int| 0 <= i < rest.len() implies rest[i] == '/' by {
            assert(rest[i] == path[i + 1]);
        }
        lemma_slashes_render_empty(rest);
        lemma_render_concat(seq![e], split(rest, '/'));
    }
}

/// The empty path, and every path made of `/` alone, compiles to the root
/// pattern `/`, which declares no parameter.
pub proof fn lemma_root(path: Seq<char>)
    requires
        forall|i: int| 0 <= i < path.len() ==> path[i] == '/',
    ensures
        normalized(path) == seq!['/'],
        params(normalized(path)) == Seq::<Seq<char>>::empty(),
{
    lemma_slashes_render_empty(path);
    let root = seq!['/'];
    let e = Seq::<char>::empty();
    assert(root[0] == '/');
    assert(root.take(0) =~= e);
    assert(root.skip(1) =~= e);
    assert(split(e, '/') =~= seq![e]);
    assert(split(root, '/') =~= seq![e, e]);
    assert(seq![e, e].drop_last() =~= seq![e]);
    assert(seq![e].drop_last() =~= Seq::<Seq<char>>::empty());
    assert(seq![e].last() == e);
    assert(seq![e, e].last() == e);
    assert(param_name(e) is None);
    assert(params_of(Seq::<Seq<char>>::empty()) == Seq::<Seq<char>>::empty());
    assert(params_of(seq![e]) =~= Seq::<Seq<char>>::empty());
    assert(params_of(seq![e, e]) =~= Seq::<Seq<char>>::empty());
}

/// Whether a segment is a literal: not empty and in none of the forms that
/// write a parameter.
pub open spec fn is_literal(seg: Seq<char>) -> bool {
    seg.len() > 0 && seg[0] != ':' && seg[0] != '*' && !is_placeholder(seg)
}

/// The path that has exactly the given segments: each one after a `/`.
pub open spec fn path_of(segs: Seq<Seq<char>>) -> Seq<char>
    decreases segs.len(),
{
    if segs.len() == 0 {
        Seq::empty()
    } else {
        path_of(segs.drop_last()) + seq!['/'] + segs.last()
    }
}

/// A literal segment, once compiled, decodes back to itself.
pub proof fn lemma_literal_segment_round_trip(seg: Seq<char>)
    requires
        is_literal(seg),
    ensures
        percent_decode_text(normalize_segment(seg)) == seg,
{
    lemma_percent_round_trip(seg);
}

/// The pattern of literal segments is the percent-encoding of their path.
pub proof fn lemma_literal_render(segs: Seq<Seq<char>>)
    requires
        forall|i: int| 0 <= i < segs.len() ==> is_literal(#[trigger] segs[i]),
    ensures
        render(segs) == percent_encode_text(path_of(segs)),
    decreases segs.len(),
{
    if segs.len() == 0 {
        assert(percent_encode_text(Seq::<char>::empty()) =~= Seq::<char>::empty());
    } else {
        let init = segs.drop_last();
        let last = segs.last();
        assert(is_literal(segs[segs.len() - 1]));
        assert forall|i: int| 0 <= i < init.len() implies is_literal(#[trigger] init[i]) by {
            assert(is_literal(segs[i]));
        }
        lemma_literal_render(init);
        lemma_percent_encode_slash();
        lemma_percent_encode_text_concat(path_of(init), seq!['/']);
        lemma_percent_encode_text_concat(path_of(init) + seq!['/'], last);
        assert(render(segs) =~= percent_encode_text(path_of(segs)));
    }
}

/// A path of literal segments, once compiled, decodes back to itself.
pub proof fn lemma_literal_path_round_trip(segs: Seq<Seq<char>>)
    requires
        forall|i: int| 0 <= i < segs.len() ==> is_literal(#[trigger] segs[i]),
    ensures
        percent_decode_text(render(segs)) == path_of(segs),
{
    lemma_literal_render(segs);
    lemma_percent_round_trip(path_of(segs));
}

/// A path written as `/` and a segment, again and again, is cut into an
/// empty piece and then its segments.
pub proof fn lemma_split_path_of(segs: Seq<Seq<char>>)
    requires
        forall|i: int| 0 <= i < segs.len() ==> !(#[trigger] segs[i]).contains('/'),
    ensures
        split(path_of(segs), '/') == seq![Seq::<char>::empty()] + segs,
    decreases segs.len(),
{
    let e = Seq::<char>::empty();
    if segs.len() == 0 {
        lemma_split_one(e, '/');
        assert(seq![e] + segs =~= seq![e]);
    } else {
        let init = segs.drop_last();
        let last = segs.last();
        assert(!segs[segs.len() - 1].contains('/'));
        assert forall|i: int| 0 <= i < init.len() implies !(#[trigger] init[i]).contains('/') by {
            assert(!segs[i].contains('/'));
        }
        lemma_split_path_of(init);
        lemma_split_concat(path_of(init), last, '/');
        lemma_split_one(last, '/');
        assert(seq![e] + init + seq![last] =~= seq![e] + segs);
    }
}

/// A path of literal segments, each after a `/`, decodes back to itself
/// once it is compiled.
pub proof fn lemma_compiled_literals_round_trip(segs: Seq<Seq<char>>)
    requires
        segs.len() > 0,
        forall|i: int|
            0 <= i < segs.len() ==> is_literal(#[trigger] segs[i]) && !segs[i].contains('/'),
    ensures
        percent_decode_text(normalized(path_of(segs))) == path_of(segs),
{
    let e = Seq::<char>::empty();
    lemma_split_path_of(segs);
    lemma_render_concat(seq![e], segs);
    assert(seq![e].drop_last() =~= Seq::<Seq<char>>::empty());
    assert(seq![e].last() == e);
    assert(render(Seq::<Seq<char>>::empty()) == e);
    assert(piece(e) == e);
    assert(render(seq![e]) =~= e);
    assert(render(seq![e] + segs) =~= render(segs));
    lemma_literal_path_round_trip(segs);
    assert(render(segs).len() > 0) by {
        assert(is_literal(segs[segs.len() - 1]));
        assert(piece(segs.last()).len() > 0);
    }
}

} // verus!
