//! The virtual file system generated output is staged in before any disk
//! write: a uniquely-keyed map from path to file bytes, with insert-replace
//! semantics.

use vstd::prelude::*;

use crate::strutil::str_eq;
use vstd::string::StringSliceAdditionalSpecFns;

verus! {

/// Errors of the generation layer.
#[derive(Debug)]
pub enum Error {
    /// A staged file's bytes are not valid UTF-8 text.
    Utf8Error,
    /// The IR was rejected before generation.
    ValidationError(String),
    /// No generator is registered under the requested language.
    GeneratorNotFound(String),
    Custom(String),
}

/// How generated service code is organized.
#[derive(Debug, Clone, Copy, PartialEq, Eq, Structural)]
pub enum ServiceStyle {
    /// One file per service.
    PerService,
    /// Single client file with all services.
    SingleClient,
    /// Grouped by tag.
    ByTag,
}

/// The bytes stored under a path, if any.
pub open spec fn file_find(s: Seq<(String, Vec<u8>)>, p: Seq<char>) -> Option<Seq<u8>>
    decreases s.len(),
{
    if s.len() == 0 {
        Option::None
    } else if s[0].0@ == p {
        Option::Some(s[0].1@)
    } else {
        file_find(s.drop_first(), p)
    }
}

/// A staged set of output files, keyed uniquely by path.
#[derive(Debug)]
pub struct VirtualFS {
    files: Vec<(String, Vec<u8>)>,
}

impl View for VirtualFS {
    type V = Seq<(String, Vec<u8>)>;

    closed spec fn view(&self) -> Seq<(String, Vec<u8>)> {
        self.files@
    }
}

/// Turns bytes into text when they are valid UTF-8.
///
/// Relies on `core::str::from_utf8`: it succeeds exactly on valid UTF-8 and
/// returns the text whose byte encoding is the input.
#[verifier::external_body]
fn bytes_as_str(b: &[u8]) -> (r: Option<&str>)
    ensures
        (r is Some) == vstd::utf8::valid_utf8(b@),
        r matches Some(s) ==> s.spec_bytes() == b@,
{
    core::str::from_utf8(b).ok()
}

impl VirtualFS {
    /// Paths are pairwise distinct.
    pub open spec fn wf(self) -> bool {
        forall|i: int, j: int| 0 <= i < j < self@.len() ==> self@[i].0@ != self@[j].0@
    }

    /// Creates an empty virtual file system.
    pub fn new() -> (r: VirtualFS)
        ensures
            r@ =~= Seq::<(String, Vec<u8>)>::empty(),
            r.wf(),
    {
        VirtualFS { files: Vec::new() }
    }

    /// The number of staged files.
    pub fn len(&self) -> (r: usize)
        ensures
            r == self@.len(),
    {
        self.files.len()
    }

    /// Whether nothing is staged.
    pub fn is_empty(&self) -> (r: bool)
        ensures
            r == (self@.len() == 0),
    {
        self.files.len() == 0
    }

    /// All staged files, deliberately in insertion order (replacing a path
    /// keeps its original position): the stage order of a build is itself
    /// deterministic, so no sort is applied.
    pub fn files(&self) -> (r: &Vec<(String, Vec<u8>)>)
        ensures
            r@ == self@,
    {
        &self.files
    }

    /// Index of the entry with the given path.
    #[verifier::loop_isolation(false)]
    fn position(&self, path: &str) -> (r: Option<usize>)
        ensures
            match r {
                Some(i) => i < self@.len() && self@[i as int].0@ == path@ && file_find(
                    self@,
                    path@,
                ) == Some(self@[i as int].1@),
                None => file_find(self@, path@) is None,
            },
    {
        let n = self.files.len();
        let mut i: usize = 0;
        proof {
            assert(self@.skip(0) =~= self@);
        }
        while i < n
            invariant
                i <= n,
                file_find(self@, path@) == file_find(self@.skip(i as int), path@),
                forall|j: int| 0 <= j < i ==> (#[trigger] self@[j]).0@ != path@,
            decreases n - i,
        {
            proof {
                assert(self@.skip(i as int)[0] == self@[i as int]);
                assert(self@.skip(i as int).drop_first() =~= self@.skip(i as int + 1));
            }
            if str_eq(self.files[i].0.as_str(), path) {
                return Some(i);
            }
            i = i + 1;
        }
        proof {
            assert(self@.skip(n as int).len() == 0);
        }
        None
    }

    /// Stores bytes under a path, replacing what the path held before.
    fn put(&mut self, path: String, bytes: Vec<u8>)
        requires
            old(self).wf(),
        ensures
            final(self).wf(),
            file_find(final(self)@, path@) == Some(bytes@),
            forall|p: Seq<char>|
                p != path@ ==> #[trigger] file_find(final(self)@, p) == file_find(old(self)@, p),
    {
        let ghost m0 = self@;
        let ghost pv = path@;
        let ghost bv = bytes@;
        match self.position(path.as_str()) {
            Some(i) => {
                self.files.remove(i);
                self.files.insert(i, (path, bytes));
                proof {
                    assert(self@ =~= m0.update(i as int, (self@[i as int].0, self@[i as int].1)));
                    assert(self@[i as int].0@ == pv);
                    assert(self@[i as int].1@ == bv);
                    lemma_file_find_update(m0, i as int, self@[i as int]);
                }
            },
            None => {
                self.files.push((path, bytes));
                proof {
                    assert(self@.drop_last() =~= m0);
                    lemma_file_find_snoc(m0, self@.last());
                    assert forall|i: int, j: int|
                        0 <= i < j < self@.len() implies self@[i].0@ != self@[j].0@ by {
                        if j < m0.len() {
                        } else {
                            assert(self@[j].0@ == pv);
                            lemma_file_find_present(m0, i);
                        }
                    }
                }
            },
        }
    }

    /// Stages a text file; its bytes are the text's UTF-8 encoding.
    pub fn add_file(&mut self, path: String, content: String)
        requires
            old(self).wf(),
        ensures
            final(self).wf(),
            file_find(final(self)@, path@) == Some(vstd::utf8::encode_utf8(content@)),
            forall|p: Seq<char>|
                p != path@ ==> #[trigger] file_find(final(self)@, p) == file_find(old(self)@, p),
    {
        let bytes = content.as_str().as_bytes_vec();
        self.put(path, bytes);
    }

    /// Stages a binary file.
    pub fn add_binary(&mut self, path: String, content: Vec<u8>)
        requires
            old(self).wf(),
        ensures
            final(self).wf(),
            file_find(final(self)@, path@) == Some(content@),
            forall|p: Seq<char>|
                p != path@ ==> #[trigger] file_find(final(self)@, p) == file_find(old(self)@, p),
    {
        self.put(path, content);
    }

    /// The bytes of a staged file.
    pub fn get_file(&self, path: &str) -> (r: Option<&[u8]>)
        ensures
            match r {
                Some(b) => file_find(self@, path@) == Some(b@),
                None => file_find(self@, path@) is None,
            },
    {
        match self.position(path) {
            Some(i) => Some(self.files[i].1.as_slice()),
            None => None,
        }
    }

    /// The text of a staged file: present and valid UTF-8 gives the text,
    /// present but not UTF-8 gives the error, absent gives nothing.
    pub fn get_file_str(&self, path: &str) -> (r: Option<Result<&str, Error>>)
        ensures
            (r is Some) == (file_find(self@, path@) is Some),
            r matches Some(Ok(s)) ==> file_find(self@, path@) == Some(s.spec_bytes()),
            file_find(self@, path@) matches Some(b) && vstd::utf8::valid_utf8(b) ==> (r
                matches Some(rr) && rr is Ok),
            file_find(self@, path@) matches Some(b) && !vstd::utf8::valid_utf8(b) ==> (r
                matches Some(rr) && (rr matches Err(e) && e is Utf8Error)),
    {
        match self.get_file(path) {
            Some(bytes) => {
                match bytes_as_str(bytes) {
                    Some(s) => Some(Ok(s)),
                    None => Some(Err(Error::Utf8Error)),
                }
            },
            None => None,
        }
    }

    /// Whether a file is staged under the path.
    pub fn contains(&self, path: &str) -> (r: bool)
        ensures
            r == (file_find(self@, path@) is Some),
    {
        match self.position(path) {
            Some(_) => true,
            None => false,
        }
    }
}

/// Updating an entry in place rewrites its path's lookup and no other.
proof fn lemma_file_find_update(s: Seq<(String, Vec<u8>)>, i: int, e: (String, Vec<u8>))
    requires
        0 <= i < s.len(),
        s[i].0@ == e.0@,
        forall|a: int, b: int| 0 <= a < b < s.len() ==> s[a].0@ != s[b].0@,
    ensures
        file_find(s.update(i, e), e.0@) == Some(e.1@),
        forall|p: Seq<char>|
            p != e.0@ ==> #[trigger] file_find(s.update(i, e), p) == file_find(s, p),
        forall|a: int, b: int|
            0 <= a < b < s.update(i, e).len() ==> s.update(i, e)[a].0@ != s.update(i, e)[b].0@,
    decreases s.len(),
{
    if i == 0 {
        assert(s.update(0, e)[0] == e);
        assert(s.update(0, e).drop_first() =~= s.drop_first());
        assert forall|p: Seq<char>| p != e.0@ implies #[trigger] file_find(s.update(0, e), p)
            == file_find(s, p) by {
            assert(file_find(s.update(0, e), p) == file_find(s.drop_first(), p));
            assert(s[0].0@ == e.0@);
            assert(file_find(s, p) == file_find(s.drop_first(), p));
        }
    } else {
        assert(s.update(i, e)[0] == s[0]);
        assert(s.update(i, e).drop_first() =~= s.drop_first().update(i - 1, e));
        assert(s.drop_first()[i - 1] == s[i]);
        assert(forall|a: int, b: int|
            0 <= a < b < s.drop_first().len() ==> (#[trigger] s.drop_first()[a]).0@ != (
            #[trigger] s.drop_first()[b]).0@);
        lemma_file_find_update(s.drop_first(), i - 1, e);
        assert(s[0].0@ != e.0@);
        assert forall|p: Seq<char>| p != e.0@ implies #[trigger] file_find(s.update(i, e), p)
            == file_find(s, p) by {
            if s[0].0@ == p {
            } else {
                assert(file_find(s.update(i, e), p) == file_find(
                    s.drop_first().update(i - 1, e),
                    p,
                ));
                assert(file_find(s, p) == file_find(s.drop_first(), p));
            }
        }
    }
}

/// Appending a fresh path adds its lookup and changes no other.
proof fn lemma_file_find_snoc(s: Seq<(String, Vec<u8>)>, e: (String, Vec<u8>))
    requires
        file_find(s, e.0@) is None,
    ensures
        file_find(s.push(e), e.0@) == Some(e.1@),
        forall|p: Seq<char>|
            p != e.0@ ==> #[trigger] file_find(s.push(e), p) == file_find(s, p),
    decreases s.len(),
{
    if s.len() == 0 {
        assert(s.push(e)[0] == e);
        assert(s.push(e).drop_first() =~= Seq::<(String, Vec<u8>)>::empty());
        assert forall|p: Seq<char>| p != e.0@ implies #[trigger] file_find(s.push(e), p)
            == file_find(s, p) by {
            assert(file_find(s.push(e), p) == file_find(
                Seq::<(String, Vec<u8>)>::empty(),
                p,
            ));
        }
    } else {
        assert(s.push(e)[0] == s[0]);
        assert(s.push(e).drop_first() =~= s.drop_first().push(e));
        lemma_file_find_snoc(s.drop_first(), e);
        assert forall|p: Seq<char>| p != e.0@ implies #[trigger] file_find(s.push(e), p)
            == file_find(s, p) by {
            if s[0].0@ == p {
            } else {
                assert(file_find(s.push(e), p) == file_find(s.drop_first().push(e), p));
                assert(file_find(s, p) == file_find(s.drop_first(), p));
            }
        }
    }
}

/// A present entry's path is found.
proof fn lemma_file_find_present(s: Seq<(String, Vec<u8>)>, i: int)
    requires
        0 <= i < s.len(),
    ensures
        file_find(s, s[i].0@) is Some,
    decreases s.len(),
{
    if i > 0 && s[0].0@ != s[i].0@ {
        assert(s.drop_first()[i - 1] == s[i]);
        lemma_file_find_present(s.drop_first(), i - 1);
    }
}

} // verus!
