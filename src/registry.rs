//! The component registry: components found in a source tree, looked up by
//! name without regard to case.
use vstd::prelude::*;

use crate::paths::{extension, file_name, split_path, stem};
use crate::react::{structure_of, transform_structure, transformed, ComponentStructure, ReactAdapter, StructV, TransformedBlock};
use vstd::string::StringExecFns;
use crate::text::{find_exec, chars_of, find_from, lower_of, str_eq, to_lower};

verus! {

/// A component found in the source tree.
#[derive(Debug, Clone)]
pub struct CachedComponent {
    /// The component's name.
    pub name: String,
    /// The file it was found in.
    pub source_path: String,
    /// What was extracted from it.
    pub structure: ComponentStructure,
    /// The file's text.
    pub source: String,
}

/// Registry errors.
#[derive(Debug, Clone, PartialEq)]
pub enum RegistryError {
    DirectoryNotFound(String),
    ComponentNotFound(String),
    ParseError(String),
}

/// Components by case-folded name.
#[derive(Debug, Default)]
pub struct ComponentRegistry {
    components: Vec<(String, CachedComponent)>,
}

pub type Index = Seq<(Seq<char>, CachedComponent)>;

/// Position of the entry keyed `k`, or -1.
pub open spec fn find_key(m: Index, k: Seq<char>) -> int
    decreases m.len(),
{
    if m.len() == 0 {
        -1
    } else if m.last().0 == k {
        m.len() - 1
    } else {
        find_key(m.drop_last(), k)
    }
}

pub proof fn lemma_find_key(m: Index, k: Seq<char>)
    ensures
        -1 <= find_key(m, k) < m.len(),
        find_key(m, k) >= 0 ==> m[find_key(m, k)].0 == k,
        find_key(m, k) == -1 ==> forall|j: int| 0 <= j < m.len() ==> #[trigger] m[j].0 != k,
    decreases m.len(),
{
    if m.len() > 0 && m.last().0 != k {
        lemma_find_key(m.drop_last(), k);
        if find_key(m, k) == -1 {
            assert forall|j: int| 0 <= j < m.len() implies #[trigger] m[j].0 != k by {
                if j < m.len() - 1 {
                    assert(m.drop_last()[j] == m[j]);
                }
            }
        }
    }
}

/// `pat` occurs in `s`.
pub open spec fn contains(s: Seq<char>, pat: Seq<char>) -> bool {
    find_from(s, pat, 0) is Some
}

/// A file the registry reads: a `.tsx` or `.jsx` file that is not a test,
/// spec, story or index file.
pub open spec fn is_candidate(path: Seq<char>) -> bool {
    let name = file_name(path);
    let ext = extension(name);
    (ext == "tsx"@ || ext == "jsx"@) && !contains(name, ".test."@) && !contains(name, ".spec."@)
        && !contains(name, ".stories."@) && name != "index.tsx"@ && name != "index.jsx"@
}

/// Test, spec and story files and index files are never read, whatever
/// they hold.
pub proof fn lemma_excluded_files(path: Seq<char>)
    requires
        contains(file_name(path), ".test."@) || contains(file_name(path), ".spec."@) || contains(
            file_name(path),
            ".stories."@,
        ) || file_name(path) == "index.tsx"@ || file_name(path) == "index.jsx"@,
    ensures
        !is_candidate(path),
{
}

/// The name a component is registered under: the extracted name, or the
/// file stem when extraction fell back to the default.
pub open spec fn registered_name(path: Seq<char>, st: StructV) -> Seq<char> {
    if st.name.len() == 0 || st.name == "Component"@ {
        stem(file_name(path))
    } else {
        st.name
    }
}

/// The files among the first `n` that yield a component, in order, with
/// the name each is registered under.
pub open spec fn found(files: Seq<(Seq<char>, Seq<char>)>, n: int) -> Seq<(Seq<char>, StructV)>
    decreases n,
{
    if n <= 0 {
        Seq::empty()
    } else {
        let f = files[n - 1];
        let prev = found(files, n - 1);
        if is_candidate(f.0) && structure_of(f.1) is Some {
            prev.push((registered_name(f.0, structure_of(f.1)->0), structure_of(f.1)->0))
        } else {
            prev
        }
    }
}

pub open spec fn files_view(files: Seq<(String, String)>) -> Seq<(Seq<char>, Seq<char>)> {
    Seq::new(files.len(), |i: int| (files[i].0@, files[i].1@))
}

/// The file yields a component.
pub open spec fn yields(f: (Seq<char>, Seq<char>)) -> bool {
    is_candidate(f.0) && structure_of(f.1) is Some
}

/// The key the file's component is registered under.
pub open spec fn key_of(f: (Seq<char>, Seq<char>)) -> Seq<char> {
    lower_of(registered_name(f.0, structure_of(f.1)->0))
}

/// Index entry `e` is the component of file `f`.
pub open spec fn from_file(e: (Seq<char>, CachedComponent), f: (Seq<char>, Seq<char>)) -> bool {
    &&& yields(f)
    &&& e.0 == key_of(f)
    &&& e.1.source_path@ == f.0
    &&& e.1.source@ == f.1
    &&& structure_of(f.1) == Some(e.1.structure@)
    &&& e.1.name@ == registered_name(f.0, structure_of(f.1)->0)
}

/// The last of the first `n` files that yields a component keyed `k`, or -1.
pub open spec fn last_with_key(files: Seq<(Seq<char>, Seq<char>)>, k: Seq<char>, n: int) -> int
    decreases n,
{
    if n <= 0 {
        -1
    } else if yields(files[n - 1]) && key_of(files[n - 1]) == k {
        n - 1
    } else {
        last_with_key(files, k, n - 1)
    }
}

/// Every entry of `m` is the component of the last file with its key.
pub open spec fn each_from_latest_file(m: Index, files: Seq<(Seq<char>, Seq<char>)>) -> bool {
    forall|j: int|
        0 <= j < m.len() ==> last_with_key(files, #[trigger] m[j].0, files.len() as int) >= 0
            && from_file(m[j], files[last_with_key(files, m[j].0, files.len() as int)])
}

impl ComponentRegistry {
    /// The entries, keyed by case-folded name.
    pub closed spec fn index(&self) -> Index {
        Seq::new(self.components@.len(), |i: int| (self.components@[i].0@, self.components@[i].1))
    }

    /// Keys are unique and every entry comes from a candidate file.
    pub closed spec fn wf(&self) -> bool {
        &&& forall|i: int, j: int|
            0 <= i < j < self.index().len() ==> self.index()[i].0 != self.index()[j].0
        &&& forall|i: int|
            0 <= i < self.index().len() ==> is_candidate(
                #[trigger] self.index()[i].1.source_path@,
            )
        &&& forall|i: int|
            0 <= i < self.index().len() ==> #[trigger] self.index()[i].0 == lower_of(
                self.index()[i].1.name@,
            )
    }

    /// An empty registry.
    pub fn new() -> (r: Self)
        ensures
            r.wf(),
            r.index().len() == 0,
    {
        let r = ComponentRegistry { components: Vec::new() };
        assert(r.index() =~= Seq::<(Seq<char>, CachedComponent)>::empty());
        r
    }

    fn find(&self, key: &str) -> (r: Option<usize>)
        ensures
            r matches Some(j) ==> find_key(self.index(), key@) == j && j < self.index().len(),
            r is None ==> find_key(self.index(), key@) == -1,
    {
        let mut i = self.components.len();
        assert(self.index().subrange(0, i as int) =~= self.index());
        while i > 0
            invariant
                i <= self.index().len(),
                find_key(self.index().subrange(0, i as int), key@) == find_key(self.index(), key@),
            decreases i,
        {
            let ghost pre = self.index().subrange(0, i as int);
            assert(pre.last() == self.index()[i - 1]);
            if str_eq(self.components[i - 1].0.as_str(), key) {
                return Some(i - 1);
            }
            assert(pre.drop_last() =~= self.index().subrange(0, i - 1));
            i -= 1;
        }
        assert(self.index().subrange(0, 0) =~= Seq::<(Seq<char>, CachedComponent)>::empty());
        None
    }

    /// Look up a component by name, ignoring case.
    pub fn get(&self, name: &str) -> (r: Option<&CachedComponent>)
        ensures
            r matches Some(c) ==> find_key(self.index(), lower_of(name@)) >= 0 && self.index()[find_key(
                self.index(),
                lower_of(name@),
            )].1 == *c,
            r is None ==> find_key(self.index(), lower_of(name@)) == -1,
    {
        let key = to_lower(name);
        match self.find(key.as_str()) {
            Some(j) => Some(&self.components[j].1),
            None => None,
        }
    }

    /// Whether a component of that name, ignoring case, is registered.
    pub fn contains(&self, name: &str) -> (r: bool)
        ensures
            r == (find_key(self.index(), lower_of(name@)) >= 0),
    {
        let key = to_lower(name);
        self.find(key.as_str()).is_some()
    }

    /// The registered names, in order of registration.
    pub fn names(&self) -> (r: Vec<String>)
        ensures
            r@.len() == self.index().len(),
            forall|i: int| 0 <= i < r@.len() ==> #[trigger] r@[i]@ == self.index()[i].1.name@,
    {
        let mut out: Vec<String> = Vec::new();
        let mut i: usize = 0;
        while i < self.components.len()
            invariant
                0 <= i <= self.index().len(),
                out@.len() == i,
                forall|j: int| 0 <= j < i ==> #[trigger] out@[j]@ == self.index()[j].1.name@,
            decreases self.index().len() - i,
        {
            out.push(self.components[i].1.name.clone());
            i += 1;
        }
        out
    }

    /// Generate the custom element of a registered component.
    pub fn generate_web_component(&self, component_name: &str, tag_name: &str) -> (r: Result<
        TransformedBlock,
        RegistryError,
    >)
        ensures
            find_key(self.index(), lower_of(component_name@)) == -1 ==> (r matches Err(
                RegistryError::ComponentNotFound(n),
            ) && n@ == component_name@),
            find_key(self.index(), lower_of(component_name@)) >= 0 ==> (r matches Ok(b) && b@
                == transformed(
                tag_name@,
                self.index()[find_key(self.index(), lower_of(component_name@))].1.structure@,
            )),
    {
        match self.get(component_name) {
            Some(c) => Ok(transform_structure(&c.structure, tag_name)),
            None => Err(RegistryError::ComponentNotFound(String::from_str(component_name))),
        }
    }

    /// Sets the entry keyed `key`, in place when present.
    fn put(&mut self, key: String, cached: CachedComponent)
        requires
            old(self).wf(),
            key@ == lower_of(cached.name@),
            is_candidate(cached.source_path@),
        ensures
            final(self).wf(),
            find_key(old(self).index(), key@) >= 0 ==> final(self).index() == old(
                self,
            ).index().update(find_key(old(self).index(), key@), (key@, cached)),
            find_key(old(self).index(), key@) < 0 ==> final(self).index() == old(
                self,
            ).index().push((key@, cached)),
    {
        let ghost k = key@;
        let ghost old_index = self.index();
        proof {
            lemma_find_key(old_index, k);
        }
        match self.find(key.as_str()) {
            Some(j) => {
                self.components.set(j, (key, cached));
                assert(self.index() =~= old_index.update(j as int, (k, cached)));
            },
            None => {
                self.components.push((key, cached));
                assert(self.index() =~= old_index.push((k, cached)));
            },
        }
        proof {
            assert forall|a: int, b: int|
                0 <= a < b < self.index().len() implies self.index()[a].0 != self.index()[b].0 by {
                if b == old_index.len() {
                    assert(old_index[a].0 != k);
                }
            }
            assert forall|a: int|
                0 <= a < self.index().len() implies is_candidate(
                #[trigger] self.index()[a].1.source_path@,
            ) by {
                if a < old_index.len() && self.index()[a] == old_index[a] {
                    assert(is_candidate(old_index[a].1.source_path@));
                }
            }
            assert forall|a: int|
                0 <= a < self.index().len() implies #[trigger] self.index()[a].0 == lower_of(
                self.index()[a].1.name@,
            ) by {
                if a < old_index.len() && self.index()[a] == old_index[a] {
                    assert(old_index[a].0 == lower_of(old_index[a].1.name@));
                }
            }
        }
    }

    /// Whether the registry reads the file at `path`.
    pub fn candidate(path: &str) -> (r: bool)
        ensures
            r == is_candidate(path@),
    {
        let (_, name, _, ext) = split_path(path);
        let n = chars_of(name.as_str());
        proof {
            reveal_strlit(".test.");
            reveal_strlit(".spec.");
            reveal_strlit(".stories.");
        }
        (str_eq(ext.as_str(), "tsx") || str_eq(ext.as_str(), "jsx")) && find_exec(&n, ".test.", 0).is_none()
            && find_exec(&n, ".spec.", 0).is_none() && find_exec(&n, ".stories.", 0).is_none()
            && !str_eq(name.as_str(), "index.tsx") && !str_eq(name.as_str(), "index.jsx")
    }

    /// Rebuild the index from `(path, text)` pairs of a source tree: every
    /// candidate file with a variant table is registered under its
    /// case-folded name, a later file replacing an earlier one of the same
    /// name. Returns the number of files registered.
    #[verifier::rlimit(50)]
    pub fn scan_files(&mut self, files: &Vec<(String, String)>) -> (r: usize)
        ensures
            final(self).wf(),
            forall|j: int|
                0 <= j < final(self).index().len() ==> is_candidate(
                    #[trigger] final(self).index()[j].1.source_path@,
                ),
            r == found(files_view(files@), files@.len() as int).len(),
            each_from_latest_file(final(self).index(), files_view(files@)),
            forall|i: int|
                0 <= i < files@.len() && yields(#[trigger] files_view(files@)[i]) ==> find_key(
                    final(self).index(),
                    key_of(files_view(files@)[i]),
                ) >= 0,
    {
        let ghost fs = files_view(files@);
        self.components = Vec::new();
        let adapter = ReactAdapter::new();
        let mut count: usize = 0;
        let mut i: usize = 0;
        assert(self.index() =~= Seq::<(Seq<char>, CachedComponent)>::empty());
        while i < files.len()
            invariant
                0 <= i <= files@.len(),
                fs == files_view(files@),
                self.wf(),
                count == found(fs, i as int).len(),
                count <= i,
                forall|j: int|
                    0 <= j < self.index().len() ==> last_with_key(fs, #[trigger] self.index()[j].0, i as int)
                        >= 0 && from_file(
                        self.index()[j],
                        fs[last_with_key(fs, self.index()[j].0, i as int)],
                    ),
                forall|kk: int|
                    0 <= kk < i && yields(#[trigger] fs[kk]) ==> exists|jj: int|
                        0 <= jj < self.index().len() && #[trigger] self.index()[jj].0 == key_of(
                            fs[kk],
                        ),
            decreases files@.len() - i,
        {
            let path = files[i].0.as_str();
            let source = files[i].1.as_str();
            assert(fs[i as int] == (path@, source@));
            if Self::candidate(path) {
                match adapter.extract_structure(source) {
                    Ok(structure) => {
                        let name = if structure.name.as_str().is_empty() || str_eq(
                            structure.name.as_str(),
                            "Component",
                        ) {
                            let (_, _, st, _) = split_path(path);
                            st
                        } else {
                            structure.name.clone()
                        };
                        let key = to_lower(name.as_str());
                        let cached = CachedComponent {
                            name,
                            source_path: String::from_str(path),
                            structure,
                            source: String::from_str(source),
                        };
                        let ghost k = key@;
                        let ghost old_index = self.index();
                        assert(from_file((k, cached), fs[i as int]));
                        self.put(key, cached);
                        proof {
                            lemma_find_key(old_index, k);
                            assert forall|j: int|
                                0 <= j < self.index().len() implies last_with_key(
                                fs,
                                #[trigger] self.index()[j].0,
                                i + 1,
                            ) >= 0 && from_file(
                                self.index()[j],
                                fs[last_with_key(fs, self.index()[j].0, i + 1)],
                            ) by {
                                if self.index()[j].0 != k {
                                    assert(self.index()[j] == old_index[j]);
                                }
                            }
                            assert forall|kk: int|
                                0 <= kk < i + 1 && yields(#[trigger] fs[kk]) implies exists|jj: int|
                                0 <= jj < self.index().len() && #[trigger] self.index()[jj].0 == key_of(
                                fs[kk],
                            ) by {
                                if kk == i {
                                    let jj = if find_key(old_index, k) >= 0 {
                                        find_key(old_index, k)
                                    } else {
                                        old_index.len() as int
                                    };
                                    lemma_find_key(old_index, k);
                                    assert(self.index()[jj].0 == k);
                                } else {
                                    let jj = choose|jj: int|
                                        0 <= jj < old_index.len() && #[trigger] old_index[jj].0
                                            == key_of(fs[kk]);
                                    assert(self.index()[jj].0 == key_of(fs[kk]));
                                }
                            }
                        }
                        count += 1;
                    },
                    Err(_) => {},
                }
            }
            i += 1;
        }
        proof {
            assert forall|kk: int|
                0 <= kk < files@.len() && yields(#[trigger] files_view(files@)[kk]) implies find_key(
                self.index(),
                key_of(files_view(files@)[kk]),
            ) >= 0 by {
                lemma_find_key(self.index(), key_of(fs[kk]));
            }
        }
        count
    }
}

} // verus!
