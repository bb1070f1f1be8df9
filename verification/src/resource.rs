//! Resource management core: pluggable loaders behind a prefix registry,
//! and the conversion of loaded bytes into typed resources.
//!
//! Loaders perform I/O and live outside this crate; the manager's own logic
//! — path splitting, registry lookup, and the MIME-driven conversion — is
//! verified here against whatever a loader returns.

use crate::asset::Asset;
use crate::buffer::Buffer;
use crate::importer::wbg;
use std::sync::Arc;
use vstd::prelude::*;
use vstd::slice::{slice_subrange, slice_to_vec};
use vstd::string::StringSliceAdditionalSpecFns;

verus! {

/// A source of raw resources: yields the MIME type and bytes stored at a
/// path, or nothing.  Implementations do I/O and are supplied by the
/// application.
pub trait ResourceLoader: Send + Sync {
    /// Loads the resource at `path`.
    fn load(&self, path: &str) -> Option<(String, Vec<u8>)>;

    /// Best-effort warm-up: loads and discards the result.
    fn prefetch(&self, path: &str) {
        let _ = self.load(path);
    }
}

/// A loaded resource, classified by its MIME type.
#[derive(Debug)]
pub enum Resource {
    Binary(Arc<Buffer>),
    Text(String),
    Asset(Asset),
}

/// Position of the first colon in a byte sequence.
pub open spec fn spec_first_colon(s: Seq<u8>, from: int) -> Option<int>
    decreases s.len() - from,
{
    if from < 0 || from >= s.len() {
        None
    } else if s[from] == 58 {
        Some(from)
    } else {
        spec_first_colon(s, from + 1)
    }
}

/// Index of the first registered loader whose prefix is `prefix`.
pub open spec fn spec_loader_index<L>(pairs: Seq<(String, L)>, prefix: Seq<u8>, from: int) -> Option<
    int,
>
    decreases pairs.len() - from,
{
    if from < 0 || from >= pairs.len() {
        None
    } else if pairs[from].0@.map_values(|c: char| c as u8) == prefix {
        Some(from)
    } else {
        spec_loader_index(pairs, prefix, from + 1)
    }
}

/// Two byte slices hold the same bytes.
fn bytes_eq(a: &[u8], b: &[u8]) -> (r: bool)
    ensures
        r == (a@ == b@),
{
    let n = a.len();
    if n != b.len() {
        proof {
            assert(a@ != b@);
        }
        return false;
    }
    let mut i: usize = 0;
    while i < n
        invariant
            i <= n,
            n == a@.len(),
            n == b@.len(),
            forall|k: int| 0 <= k < i ==> a@[k] == b@[k],
        decreases n - i,
    {
        if *vstd::slice::slice_index_get(a, i) != *vstd::slice::slice_index_get(b, i) {
            return false;
        }
        i = i + 1;
    }
    proof {
        assert(a@ =~= b@);
    }
    true
}

/// Registry of resource loaders, keyed by the prefix before the colon of a
/// resource path.
pub struct ResourceManager<L> {
    pub loaders: Vec<(String, L)>,
}

impl<L: ResourceLoader> ResourceManager<L> {
    /// An empty registry.
    pub fn new() -> (r: ResourceManager<L>)
        ensures
            r.loaders@.len() == 0,
    {
        ResourceManager { loaders: Vec::new() }
    }

    /// Registers a loader for a path prefix, behind any loader already
    /// registered for it.
    pub fn insert(&mut self, k: &str, loader: L)
        ensures
            final(self).loaders@.len() == old(self).loaders@.len() + 1,
            final(self).loaders@.subrange(0, old(self).loaders@.len() as int) == old(
                self,
            ).loaders@,
            final(self).loaders@[old(self).loaders@.len() as int].0@ == k@,
    {
        self.loaders.push((k.to_owned(), loader));
    }

    /// Splits a path at its first colon and yields the registered loader for
    /// the prefix together with the rest of the path.  Nothing when the path
    /// has no colon or no loader is registered for the prefix.
    fn parse_path(&self, path: &str) -> (r: Option<(&L, String)>)
        ensures
            spec_first_colon(path.spec_bytes(), 0) is None ==> r is None,
    {
        let bytes = path.as_bytes();
        let n = bytes.len();
        let mut i: usize = 0;
        let mut found = false;
        let mut colon: usize = 0;
        while i < n && !found
            invariant
                i <= n,
                n == path.spec_bytes().len(),
                bytes@ == path.spec_bytes(),
                !found ==> spec_first_colon(path.spec_bytes(), 0) == spec_first_colon(
                    path.spec_bytes(),
                    i as int,
                ),
                found ==> spec_first_colon(path.spec_bytes(), 0) == Some(colon as int) && colon
                    < n,
            decreases n - i + (if !found { 1int } else { 0int }),
        {
            if *vstd::slice::slice_index_get(bytes, i) == 58 {
                found = true;
                colon = i;
            } else {
                i = i + 1;
            }
        }
        if !found {
            return None;
        }
        let prefix = slice_subrange(bytes, 0, colon);
        let rest_bytes = slice_to_vec(slice_subrange(bytes, colon + 1, n));
        let rest = match bytes_to_string(rest_bytes) {
            Some(s) => s,
            None => {
                return None;
            },
        };
        let m = self.loaders.len();
        let mut j: usize = 0;
        while j < m
            invariant
                j <= m,
                m == self.loaders@.len(),
                spec_first_colon(path.spec_bytes(), 0) is Some,
            decreases m - j,
        {
            let key = self.loaders[j].0.as_str();
            if bytes_eq(key.as_bytes(), prefix) {
                return Some((&self.loaders[j].1, rest));
            }
            j = j + 1;
        }
        None
    }

    /// Loads and classifies the resource at `path`: the prefix before the
    /// first colon picks the loader, the rest of the path is handed to it,
    /// and the result is converted by its MIME type.  Nothing when the path
    /// has no registered prefix, the loader yields nothing, or conversion
    /// fails.
    pub fn load(&self, path: &str) -> (r: Option<Arc<Resource>>)
        ensures
            spec_first_colon(path.spec_bytes(), 0) is None ==> r is None,
    {
        let parsed = self.parse_path(path);
        match parsed {
            Some((loader, rest)) => {
                match loader.load(rest.as_str()) {
                    Some((mime, data)) => to_resource(
                        mime,
                        Buffer::new(Some(path.to_owned()), None, data),
                    ),
                    None => None,
                }
            },
            None => None,
        }
    }
}

/// Relies on `String::from_utf8` (std): succeeds exactly on valid UTF-8 and
/// yields its decoding, a function of the bytes alone.
#[verifier::external_body]
fn bytes_to_string(v: Vec<u8>) -> (r: Option<String>)
    ensures
        r is Some <==> wbg::utf8_of(v@) is Some,
        r matches Some(s) ==> wbg::utf8_of(v@) == Some(s@),
{
    String::from_utf8(v).ok()
}

/// Classifies loaded bytes by MIME type: mesh containers are imported, XML
/// and HTML become text, and everything else stays binary.  Nothing exactly
/// when a mesh container fails to import or text is not valid UTF-8.
pub fn to_resource(mime: String, data: Arc<Buffer>) -> (r: Option<Arc<Resource>>)
    ensures
        mime@ == "application/x-ccp-wbg"@ ==> (match r {
            Some(res) => wbg::sp_asset(data@) is Some && ((*res) matches Resource::Asset(a)
                && a.buffers@.len() == 1 && a.buffers@[0] == data && wbg::objects_match(
                a.objects@,
                wbg::sp_asset(data@).unwrap(),
                data,
            )),
            None => wbg::sp_asset(data@) is None,
        }),
        (mime@ == "text/xml"@ || mime@ == "text/html"@) ==> (match r {
            Some(res) => ((*res) matches Resource::Text(t) && wbg::utf8_of(data@) == Some(t@)),
            None => wbg::utf8_of(data@) is None,
        }),
        (mime@ != "application/x-ccp-wbg"@ && mime@ != "text/xml"@ && mime@ != "text/html"@) ==> (
        r matches Some(res) && (*res) matches Resource::Binary(b) && b == data),
{
    proof {
        reveal_strlit("application/x-ccp-wbg");
        reveal_strlit("text/xml");
        reveal_strlit("text/html");
        assert("application/x-ccp-wbg"@.len() == 21);
        assert("text/xml"@.len() == 8);
        assert("text/html"@.len() == 9);
        assert("application/x-ccp-wbg"@ != "text/xml"@);
        assert("application/x-ccp-wbg"@ != "text/html"@);
    }
    let wbg_mime = "application/x-ccp-wbg".to_owned();
    let xml_mime = "text/xml".to_owned();
    let html_mime = "text/html".to_owned();
    proof {
        assert(wbg_mime@ == "application/x-ccp-wbg"@);
        assert(xml_mime@ == "text/xml"@);
    }
    if mime == wbg_mime {
        match wbg::import(crate::buffer::arc_clone(&data)) {
            Some(asset) => Some(Arc::new(Resource::Asset(asset))),
            None => None,
        }
    } else if mime == xml_mime || mime == html_mime {
        let bytes = slice_to_vec(data.as_slice());
        match bytes_to_string(bytes) {
            Some(text) => Some(Arc::new(Resource::Text(text))),
            None => None,
        }
    } else {
        Some(Arc::new(Resource::Binary(data)))
    }
}

/// The MIME type the library infers from a path's extension: the bytes
/// after the last dot of the path, provided that dot comes after any slash.
pub open spec fn spec_ext(s: Seq<u8>, i: int) -> Option<Seq<u8>>
    decreases i,
{
    if i <= 0 {
        None
    } else if s[i - 1] == 47 {
        None
    } else if s[i - 1] == 46 {
        Some(s.subrange(i, s.len() as int))
    } else {
        spec_ext(s, i - 1)
    }
}

/// The MIME type registered for an extension.
pub open spec fn spec_mime_for_ext(e: Seq<u8>) -> Option<Seq<char>> {
    if e == "wbg"@.map_values(|c: char| c as u8) {
        Some("application/x-ccp-wbg"@)
    } else if e == "red"@.map_values(|c: char| c as u8) {
        Some("application/x-ccp-red"@)
    } else if e == "obj"@.map_values(|c: char| c as u8) {
        Some("application/x-wavefront-obj"@)
    } else {
        None
    }
}

/// The MIME type for a path, by the extension after its last dot; nothing
/// for paths without a known extension.
pub fn path_to_mime(path: &str) -> (r: Option<&'static str>)
    ensures
        match spec_ext(path.spec_bytes(), path.spec_bytes().len() as int) {
            None => r is None,
            Some(e) => match spec_mime_for_ext(e) {
                None => r is None,
                Some(m) => r matches Some(t) && t@ == m,
            },
        },
{
    let bytes = path.as_bytes();
    let n = bytes.len();
    let mut i: usize = n;
    let mut state: u8 = 0;
    while i > 0 && state == 0
        invariant
            i <= n,
            n == path.spec_bytes().len(),
            bytes@ == path.spec_bytes(),
            state == 0 ==> spec_ext(path.spec_bytes(), n as int) == spec_ext(
                path.spec_bytes(),
                i as int,
            ),
            state == 1 ==> spec_ext(path.spec_bytes(), n as int) is None,
            state == 2 ==> i >= 1 && spec_ext(path.spec_bytes(), n as int) == Some(
                path.spec_bytes().subrange(i as int, n as int),
            ),
            state <= 2,
        decreases i + (if state == 0 { 1int } else { 0int }),
    {
        let c = *vstd::slice::slice_index_get(bytes, i - 1);
        if c == 47 {
            state = 1;
        } else if c == 46 {
            state = 2;
        } else {
            i = i - 1;
        }
    }
    if state != 2 {
        return None;
    }
    let dot: usize = i;
    let ext = slice_subrange(bytes, dot, n);
    proof {
        assert("wbg"@.map_values(|c: char| c as u8) =~= seq![119u8, 98u8, 103u8]) by {
            reveal_strlit("wbg");
        }
        assert("red"@.map_values(|c: char| c as u8) =~= seq![114u8, 101u8, 100u8]) by {
            reveal_strlit("red");
        }
        assert("obj"@.map_values(|c: char| c as u8) =~= seq![111u8, 98u8, 106u8]) by {
            reveal_strlit("obj");
        }
    }
    let wbg_ext: [u8; 3] = [119, 98, 103];
    let red_ext: [u8; 3] = [114, 101, 100];
    let obj_ext: [u8; 3] = [111, 98, 106];
    if bytes_eq(ext, wbg_ext.as_slice()) {
        Some("application/x-ccp-wbg")
    } else if bytes_eq(ext, red_ext.as_slice()) {
        Some("application/x-ccp-red")
    } else if bytes_eq(ext, obj_ext.as_slice()) {
        Some("application/x-wavefront-obj")
    } else {
        None
    }
}

} // verus!
