//! Serving files from a directory: which file a request path names, which
//! files are tried for it, and what content type a file is given.
//!
//! A request path is percent-decoded and cut at `/`. Of its segments only the
//! normal ones are kept: an empty segment, `.` and `..` are dropped, so that
//! the file named always lies under the root.

use crate::percent::{decode_lossy, percent_decode_text};
use crate::text::{ends_with_char, split, split_str, str_eq};
use vstd::prelude::*;
use vstd::string::*;

verus! {

/// Whether a segment names a file or a directory: it is not empty, not `.`
/// and not `..`.
pub open spec fn is_normal(seg: Seq<char>) -> bool {
    seg.len() > 0 && seg != "."@ && seg != ".."@
}

/// The normal segments among the given ones, in order.
pub open spec fn normal_segments(segs: Seq<Seq<char>>) -> Seq<Seq<char>>
    decreases segs.len(),
{
    if segs.len() == 0 {
        Seq::empty()
    } else if is_normal(segs.last()) {
        normal_segments(segs.drop_last()).push(segs.last())
    } else {
        normal_segments(segs.drop_last())
    }
}

/// The segments of the file that a request path names, below the root.
pub open spec fn safe_relative(uri_path: Seq<char>) -> Seq<Seq<char>> {
    normal_segments(split(percent_decode_text(uri_path), '/'))
}

/// A directory and the segments below it, put together with `/`.
pub open spec fn under(root: Seq<char>, segs: Seq<Seq<char>>) -> Seq<char>
    decreases segs.len(),
{
    if segs.len() == 0 {
        root
    } else {
        let dir = under(root, segs.drop_last());
        if dir.len() > 0 && dir.last() == '/' {
            dir + segs.last()
        } else {
            dir + seq!['/'] + segs.last()
        }
    }
}

/// All the normal segments are normal, and each of them is one of the given
/// segments.
pub proof fn lemma_normal_segments(segs: Seq<Seq<char>>)
    ensures
        forall|i: int|
            0 <= i < normal_segments(segs).len() ==> is_normal(#[trigger] normal_segments(segs)[i])
                && segs.contains(normal_segments(segs)[i]),
    decreases segs.len(),
{
    if segs.len() > 0 {
        lemma_normal_segments(segs.drop_last());
        let init = normal_segments(segs.drop_last());
        assert forall|i: int| 0 <= i < normal_segments(segs).len() implies is_normal(
            #[trigger] normal_segments(segs)[i],
        ) && segs.contains(normal_segments(segs)[i]) by {
            if i < init.len() {
                let k = choose|k: int|
                    0 <= k < segs.drop_last().len() && segs.drop_last()[k] == init[i];
                assert(segs[k] == init[i]);
            } else {
                assert(segs[segs.len() - 1] == segs.last());
            }
        }
    }
}

/// What `mime_guess` takes a path's media type to be, written out.
pub uninterp spec fn guessed_mime(path: Seq<char>) -> Seq<char>;

/// The top-level type of what `mime_guess` takes a path's media type to be.
pub uninterp spec fn guessed_mime_type(path: Seq<char>) -> Seq<char>;

/// Calls `mime_guess::from_path` and `first_or_octet_stream`, and writes the
/// media type out. The result is only named: it depends on the path alone.
#[verifier::external_body]
pub(crate) fn guess_mime(path: &str) -> (mime: String)
    ensures
        mime@ == guessed_mime(path@),
{
    mime_guess::from_path(path).first_or_octet_stream().to_string()
}

/// Calls `mime_guess::from_path` and `first_or_octet_stream`, and gives the
/// media type's top-level type as `Mime::type_` has it. The result is only
/// named: it depends on the path alone.
#[verifier::external_body]
pub(crate) fn guess_mime_type(path: &str) -> (top: String)
    ensures
        top@ == guessed_mime_type(path@),
{
    mime_guess::from_path(path).first_or_octet_stream().type_().as_str().to_string()
}

/// The content type for a media type: a text type is sent as UTF-8.
pub open spec fn content_type_for(mime: Seq<char>, top: Seq<char>) -> Seq<char> {
    if top == "text"@ {
        mime + "; charset=utf-8"@
    } else {
        mime
    }
}

/// The content type for a media type with the given top-level type.
pub fn content_type_of(mime: &str, top: &str) -> (header: String)
    ensures
        header@ == content_type_for(mime@, top@),
{
    let mut header = mime.to_owned();
    if str_eq(top, "text") {
        header.append("; charset=utf-8");
    }
    header
}

/// The content type under which the file at `path` is sent.
pub fn content_type(path: &str) -> (header: String)
    ensures
        header@ == content_type_for(guessed_mime(path@), guessed_mime_type(path@)),
{
    let mime = guess_mime(path);
    let top = guess_mime_type(path);
    content_type_of(mime.as_str(), top.as_str())
}

/// The segments of the file that a request path names, below the root. None
/// of them is empty, `.` or `..`, and none holds a `/`.
pub fn safe_components(uri_path: &str) -> (segs: Vec<String>)
    ensures
        segs.deep_view() == safe_relative(uri_path@),
        forall|i: int|
            0 <= i < segs.len() ==> is_normal(#[trigger] segs.deep_view()[i])
                && !segs.deep_view()[i].contains('/'),
{
    let decoded = decode_lossy(uri_path);
    normal_components(decoded.as_str())
}

/// The normal segments of a decoded path, in order. None of them is empty,
/// `.` or `..`, and none holds a `/`.
pub fn normal_components(decoded: &str) -> (segs: Vec<String>)
    ensures
        segs.deep_view() == normal_segments(split(decoded@, '/')),
        forall|i: int|
            0 <= i < segs.len() ==> is_normal(#[trigger] segs.deep_view()[i])
                && !segs.deep_view()[i].contains('/'),
{
    let parts = split_str(decoded, '/');
    let mut segs: Vec<String> = Vec::new();
    let mut i: usize = 0;
    proof {
        assert(segs.deep_view() =~= Seq::<Seq<char>>::empty());
    }
    while i < parts.len()
        invariant
            i <= parts.len(),
            segs.deep_view() == normal_segments(parts.deep_view().take(i as int)),
        decreases parts.len() - i,
    {
        let part = parts[i].as_str();
        proof {
            let next = parts.deep_view().take(i + 1);
            assert(next.drop_last() =~= parts.deep_view().take(i as int));
            assert(next.last() == part@);
        }
        if !part.is_empty() && !str_eq(part, ".") && !str_eq(part, "..") {
            let ghost before = segs.deep_view();
            let kept = part.to_owned();
            segs.push(kept);
            proof {
                assert(segs.deep_view() =~= before.push(part@));
            }
        }
        i += 1;
    }
    proof {
        let all = parts.deep_view();
        assert(all.take(i as int) =~= all);
        lemma_normal_segments(all);
        crate::text::lemma_split_pieces(decoded@, '/');
        assert forall|k: int| 0 <= k < segs.len() implies is_normal(
            #[trigger] segs.deep_view()[k],
        ) && !segs.deep_view()[k].contains('/') by {
            let seg = segs.deep_view()[k];
            assert(all.contains(seg));
            let j = choose|j: int| 0 <= j < all.len() && all[j] == seg;
            if seg.contains('/') {
                let m = choose|m: int| 0 <= m < seg.len() && seg[m] == '/';
                assert(all[j][m] != '/');
            }
        }
    }
    segs
}

/// Puts the segments below a directory.
pub fn join_under(root: &str, segs: &Vec<String>) -> (path: String)
    ensures
        path@ == under(root@, segs.deep_view()),
{
    let mut path = root.to_owned();
    let mut i: usize = 0;
    while i < segs.len()
        invariant
            i <= segs.len(),
            path@ == under(root@, segs.deep_view().take(i as int)),
        decreases segs.len() - i,
    {
        proof {
            let next = segs.deep_view().take(i + 1);
            assert(next.drop_last() =~= segs.deep_view().take(i as int));
            assert(next.last() == segs[i as int]@);
        }
        if !ends_with_char(path.as_str(), '/') {
            path.push('/');
        }
        path.append(segs[i].as_str());
        i += 1;
    }
    proof {
        assert(segs.deep_view().take(i as int) =~= segs.deep_view());
    }
    path
}

/// A service that answers requests with the files of a directory.
#[derive(Debug, Clone, PartialEq, Eq)]
pub struct StaticFileService {
    /// The directory that is served.
    pub root: String,
    spa_fallback: bool,
}

/// Builds a `StaticFileService`.
#[derive(Debug, Clone, PartialEq, Eq)]
pub struct StaticFileServiceBuilder {
    root: String,
    spa_fallback: bool,
}

impl StaticFileService {
    /// Whether a request for a file that cannot be served is answered with
    /// the root's `index.html`.
    pub closed spec fn falls_back(&self) -> bool {
        self.spa_fallback
    }

    /// The directory that is served.
    pub closed spec fn root_view(&self) -> Seq<char> {
        self.root@
    }

    /// The file that a request path names.
    pub open spec fn resolved(&self, uri_path: Seq<char>) -> Seq<char> {
        under(self.root_view(), safe_relative(uri_path))
    }

    /// The root's `index.html`.
    pub open spec fn index_file(&self) -> Seq<char> {
        under(self.root_view(), seq!["index.html"@])
    }

    /// A service for the given directory.
    pub fn new(root: String, spa_fallback: bool) -> (service: Self)
        ensures
            service.root_view() == root@,
            service.falls_back() == spa_fallback,
    {
        StaticFileService { root, spa_fallback }
    }

    /// A builder for a service for the given directory.
    pub fn builder(root: String) -> (b: StaticFileServiceBuilder)
        ensures
            b.root_view() == root@,
            !b.falls_back(),
    {
        StaticFileServiceBuilder::new(root)
    }

    /// The directory that is served.
    pub fn root(&self) -> (root: &str)
        ensures
            root@ == self.root_view(),
    {
        self.root.as_str()
    }

    /// Whether the service falls back to the root's `index.html`.
    pub fn spa_fallback(&self) -> (b: bool)
        ensures
            b == self.falls_back(),
    {
        self.spa_fallback
    }

    /// The file that a request path names: the root, and below it the normal
    /// segments of the decoded path.
    pub fn resolve_path(&self, uri_path: &str) -> (path: String)
        ensures
            path@ == self.resolved(uri_path@),
    {
        let segs = safe_components(uri_path);
        join_under(self.root.as_str(), &segs)
    }

    /// The files to try for a request path, in order: the file that the path
    /// names and, with the fallback switched on, the root's `index.html`. A
    /// request for which none of them can be served is answered as not found.
    pub fn candidates(&self, uri_path: &str) -> (files: Vec<String>)
        ensures
            files.deep_view() == if self.falls_back() {
                seq![self.resolved(uri_path@), self.index_file()]
            } else {
                seq![self.resolved(uri_path@)]
            },
    {
        let mut files: Vec<String> = Vec::new();
        let first = self.resolve_path(uri_path);
        files.push(first);
        if self.spa_fallback {
            let mut index: Vec<String> = Vec::new();
            index.push("index.html".to_owned());
            proof {
                assert(index.deep_view() =~= seq!["index.html"@]);
            }
            let second = join_under(self.root.as_str(), &index);
            files.push(second);
            proof {
                assert(files.deep_view() =~= seq![first@, second@]);
            }
        } else {
            proof {
                assert(files.deep_view() =~= seq![first@]);
            }
        }
        files
    }
}

impl StaticFileServiceBuilder {
    /// The directory that the built service will serve.
    pub closed spec fn root_view(&self) -> Seq<char> {
        self.root@
    }

    /// Whether the built service will fall back to the root's `index.html`.
    pub closed spec fn falls_back(&self) -> bool {
        self.spa_fallback
    }

    /// A builder for the given directory, without fallback.
    pub fn new(root: String) -> (b: Self)
        ensures
            b.root_view() == root@,
            !b.falls_back(),
    {
        StaticFileServiceBuilder { root, spa_fallback: false }
    }

    /// Switches the fallback to the root's `index.html` on or off.
    pub fn with_spa_fallback(self, enable: bool) -> (b: Self)
        ensures
            b.root_view() == self.root_view(),
            b.falls_back() == enable,
    {
        StaticFileServiceBuilder { root: self.root, spa_fallback: enable }
    }

    /// The service.
    pub fn build(self) -> (service: StaticFileService)
        ensures
            service.root_view() == self.root_view(),
            service.falls_back() == self.falls_back(),
    {
        StaticFileService { root: self.root, spa_fallback: self.spa_fallback }
    }
}

} // verus!
