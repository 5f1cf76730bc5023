//! The bundle of frontend files and the route that serves them.

use vstd::prelude::*;
use vstd::utf8::{encode_utf8, valid_utf8, encode_utf8_decode_utf8};
use crate::routes::RouteError;
use crate::text::string_from_utf8;

verus! {

/// One file of the frontend bundle, under its path relative to the bundle's
/// root.
#[derive(Clone, Debug, PartialEq, Eq)]
pub struct BundleFile {
    pub path: String,
    pub contents: Vec<u8>,
}

/// The frontend files that the server serves.
#[derive(Clone, Debug, PartialEq, Eq)]
pub struct Bundle {
    pub files: Vec<BundleFile>,
}

impl View for Bundle {
    type V = Seq<(Seq<char>, Seq<u8>)>;

    open spec fn view(&self) -> Seq<(Seq<char>, Seq<u8>)> {
        self.files@.map_values(|f: BundleFile| (f.path@, f.contents@))
    }
}

/// The page served for paths that the bundle lacks.
pub const INDEX_FILE: &'static str = "index.html";

/// The media type of a served file.
#[derive(Clone, Debug, PartialEq, Eq)]
pub enum FileKind {
    /// Known by the file name's extension (these bytes).
    Extension(Vec<u8>),
    /// No extension: plain text.
    Plain,
    /// The bundle's index page.
    Html,
}

/// The body of a file response and its media type.
#[derive(Clone, Debug, PartialEq, Eq)]
pub struct FileReply {
    pub kind: FileKind,
    pub body: String,
}

/// The first file of `fs`, from index `i` on, with the given path.
pub open spec fn first_match(fs: Seq<(Seq<char>, Seq<u8>)>, path: Seq<char>, i: int) -> Option<int>
    decreases fs.len() - i,
{
    if i < 0 || i >= fs.len() {
        None
    } else if fs[i].0 == path {
        Some(i)
    } else {
        first_match(fs, path, i + 1)
    }
}

/// The last index below `end` where `s` holds `c`, or -1.
pub open spec fn last_index(s: Seq<u8>, c: u8, end: int) -> int
    decreases end,
{
    if end <= 0 {
        -1
    } else if s[end - 1] == c {
        end - 1
    } else {
        last_index(s, c, end - 1)
    }
}

/// The extension of a path's file name: what follows its last `.`, where
/// that dot is not the name's first byte.
pub open spec fn extension_of(p: Seq<u8>) -> Option<Seq<u8>> {
    let slash = last_index(p, 47, p.len() as int);
    let dot = last_index(p, 46, p.len() as int);
    if dot > slash + 1 {
        Some(p.subrange(dot + 1, p.len() as int))
    } else {
        None
    }
}

/// The media type chosen for a file found under `path`.
pub open spec fn kind_for(k: FileKind, path: Seq<char>) -> bool {
    match extension_of(encode_utf8(path)) {
        Some(e) => k matches FileKind::Extension(x) && x@ == e,
        None => k == FileKind::Plain,
    }
}

/// What serving a file found at index `i` yields: its text, or an internal
/// error where it is not UTF-8.
pub open spec fn served(r: Result<FileReply, RouteError>, fs: Seq<(Seq<char>, Seq<u8>)>, i: int) -> bool {
    if valid_utf8(fs[i].1) {
        r matches Ok(reply) && encode_utf8(reply.body@) == fs[i].1
    } else {
        r == Err::<FileReply, RouteError>(RouteError::Internal)
    }
}

proof fn lemma_last_index_range(s: Seq<u8>, c: u8, end: int)
    ensures
        -1 <= last_index(s, c, end),
        end > 0 ==> last_index(s, c, end) < end,
    decreases end,
{
    if end > 0 {
        lemma_last_index_range(s, c, end - 1);
    }
}

proof fn lemma_first_match_range(fs: Seq<(Seq<char>, Seq<u8>)>, path: Seq<char>, i: int)
    ensures
        first_match(fs, path, i) matches Some(k) ==> i <= k < fs.len(),
    decreases fs.len() - i,
{
    if 0 <= i < fs.len() && fs[i].0 != path {
        lemma_first_match_range(fs, path, i + 1);
    }
}

fn last_index_exec(s: &[u8], c: u8) -> (r: usize)
    ensures
        r as int == last_index(s@, c, s@.len() as int) + 1,
{
    let mut i: usize = s.len();
    while i > 0
        invariant
            i <= s@.len(),
            last_index(s@, c, s@.len() as int) == last_index(s@, c, i as int),
        decreases i,
    {
        if s[i - 1] == c {
            return i;
        }
        i = i - 1;
    }
    0
}

fn extension_exec(p: &[u8]) -> (r: Option<Vec<u8>>)
    ensures
        match extension_of(p@) {
            Some(e) => r matches Some(v) && v@ == e,
            None => r is None,
        },
{
    let slash = last_index_exec(p, 47);
    let dot = last_index_exec(p, 46);
    proof {
        lemma_last_index_range(p@, 46, p@.len() as int);
    }
    if dot > slash && dot - slash > 1 {
        let mut v: Vec<u8> = Vec::new();
        let mut i: usize = dot;
        while i < p.len()
            invariant
                dot <= i <= p@.len(),
                v@ == p@.subrange(dot as int, i as int),
            decreases p@.len() - i,
        {
            v.push(p[i]);
            i = i + 1;
            assert(v@ =~= p@.subrange(dot as int, i as int));
        }
        Some(v)
    } else {
        None
    }
}

fn bytes_equal(a: &[u8], b: &[u8]) -> (r: bool)
    ensures
        r == (a@ == b@),
{
    if a.len() != b.len() {
        return false;
    }
    let mut i: usize = 0;
    while i < a.len()
        invariant
            a@.len() == b@.len(),
            i <= a@.len(),
            forall|j: int| 0 <= j < i ==> a@[j] == b@[j],
        decreases a@.len() - i,
    {
        if a[i] != b[i] {
            return false;
        }
        i = i + 1;
    }
    assert(a@ =~= b@);
    true
}

fn same_text(a: &str, b: &str) -> (r: bool)
    ensures
        r == (a@ == b@),
{
    let r = bytes_equal(a.as_bytes(), b.as_bytes());
    proof {
        encode_utf8_decode_utf8(a@);
        encode_utf8_decode_utf8(b@);
    }
    r
}

impl Bundle {
    /// The index of the first file with the given path.
    pub fn find(&self, path: &str) -> (r: Option<usize>)
        ensures
            r matches Some(i) ==> i < self.files@.len() && first_match(self@, path@, 0) == Some(i as int),
            r is None ==> first_match(self@, path@, 0) is None,
    {
        proof {
            lemma_first_match_range(self@, path@, 0);
        }
        let mut i: usize = 0;
        while i < self.files.len()
            invariant
                i <= self.files@.len(),
                first_match(self@, path@, 0) == first_match(self@, path@, i as int),
                first_match(self@, path@, 0) matches Some(k) ==> i <= k,
            decreases self.files@.len() - i,
        {
            assert(self@[i as int].0 == self.files@[i as int].path@);
            if same_text(self.files[i].path.as_str(), path) {
                return Some(i);
            }
            proof {
                lemma_first_match_range(self@, path@, i + 1);
            }
            i = i + 1;
        }
        None
    }
}

/// Serves the bundle's file at `path`, typed by its extension; a path that
/// the bundle lacks gets the index page, so that the frontend can route it.
pub fn files(bundle: &Bundle, path: &str) -> (r: Result<FileReply, RouteError>)
    ensures
        match first_match(bundle@, path@, 0) {
            Some(i) => served(r, bundle@, i) && (r matches Ok(reply) ==> kind_for(reply.kind, path@)),
            None => match first_match(bundle@, INDEX_FILE@, 0) {
                Some(j) => served(r, bundle@, j) && (r matches Ok(reply) ==> reply.kind == FileKind::Html),
                None => r == Err::<FileReply, RouteError>(RouteError::Internal),
            },
        },
{
    match bundle.find(path) {
        Some(i) => {
            let contents = bundle.files[i].contents.clone();
            assert(contents@ == bundle@[i as int].1);
            match string_from_utf8(contents) {
                None => Err(RouteError::Internal),
                Some(body) => {
                    let kind = match extension_exec(path.as_bytes()) {
                        Some(e) => FileKind::Extension(e),
                        None => FileKind::Plain,
                    };
                    Ok(FileReply { kind, body })
                },
            }
        },
        None => match bundle.find(INDEX_FILE) {
            None => Err(RouteError::Internal),
            Some(j) => {
                let contents = bundle.files[j].contents.clone();
                assert(contents@ == bundle@[j as int].1);
                let r = match string_from_utf8(contents) {
                    None => Err(RouteError::Internal),
                    Some(body) => Ok(FileReply { kind: FileKind::Html, body }),
                };
                assert(served(r, bundle@, j as int));
                r
            },
        },
    }
}

} // verus!
