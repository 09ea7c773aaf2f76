//! The table from file extensions to languages.

use vstd::prelude::*;

verus! {

/// A parsing grammar.
#[derive(Clone, Copy, Debug, PartialEq, Eq, Structural)]
pub enum Grammar {
    C,
    Cpp,
    Python,
    Rust,
}

/// A supported language: a grammar together with the capture query that is run against
/// the trees of that grammar.
#[derive(Clone, Copy, Debug, PartialEq, Eq, Structural)]
pub enum LanguageSpec {
    C,
    Cpp,
    Python,
    Rust,
}

impl LanguageSpec {
    /// The grammar that parses files of this language.
    pub open spec fn grammar_of(self) -> Grammar {
        match self {
            LanguageSpec::C => Grammar::C,
            LanguageSpec::Cpp => Grammar::Cpp,
            LanguageSpec::Python => Grammar::Python,
            LanguageSpec::Rust => Grammar::Rust,
        }
    }

    /// The capture query of this language: every identifier node, and for C++ every
    /// namespace identifier node as well. Each capture is labelled `name`.
    pub open spec fn query_of(self) -> Seq<char> {
        match self {
            LanguageSpec::Cpp => "(identifier) @name (namespace_identifier) @name"@,
            _ => "(identifier) @name"@,
        }
    }

    /// The grammar that parses files of this language.
    pub fn grammar(self) -> (g: Grammar)
        ensures
            g == self.grammar_of(),
    {
        match self {
            LanguageSpec::C => Grammar::C,
            LanguageSpec::Cpp => Grammar::Cpp,
            LanguageSpec::Python => Grammar::Python,
            LanguageSpec::Rust => Grammar::Rust,
        }
    }

    /// The text of the capture query.
    pub fn query_text(self) -> (q: &'static str)
        ensures
            q@ == self.query_of(),
    {
        match self {
            LanguageSpec::Cpp => "(identifier) @name (namespace_identifier) @name",
            _ => "(identifier) @name",
        }
    }
}

/// The extensions that are registered, each with its language.
pub open spec fn standard_table() -> Map<Seq<char>, LanguageSpec> {
    Map::<Seq<char>, LanguageSpec>::empty().insert("c"@, LanguageSpec::C).insert(
        "cc"@,
        LanguageSpec::Cpp,
    ).insert("cpp"@, LanguageSpec::Cpp).insert("cxx"@, LanguageSpec::Cpp).insert(
        "h"@,
        LanguageSpec::C,
    ).insert("hh"@, LanguageSpec::Cpp).insert("hpp"@, LanguageSpec::Cpp).insert(
        "hxx"@,
        LanguageSpec::Cpp,
    ).insert("py"@, LanguageSpec::Python).insert("rs"@, LanguageSpec::Rust)
}

struct Entry {
    extension: String,
    spec: LanguageSpec,
}

/// The language of the last entry with the given extension.
spec fn find(entries: Seq<Entry>, key: Seq<char>) -> Option<LanguageSpec>
    decreases entries.len(),
{
    if entries.len() == 0 {
        None
    } else if entries.last().extension@ == key {
        Some(entries.last().spec)
    } else {
        find(entries.drop_last(), key)
    }
}

proof fn find_after_push(entries: Seq<Entry>, entry: Entry, key: Seq<char>)
    ensures
        find(entries.push(entry), key) == if entry.extension@ == key {
            Some(entry.spec)
        } else {
            find(entries, key)
        },
{
    assert(entries.push(entry).drop_last() =~= entries);
}

/// A table from extensions (without the dot, case-sensitive) to languages. It is built
/// once and only read afterwards.
pub struct Registry {
    entries: Vec<Entry>,
}

impl View for Registry {
    type V = Map<Seq<char>, LanguageSpec>;

    closed spec fn view(&self) -> Map<Seq<char>, LanguageSpec> {
        Map::new(
            |key: Seq<char>| find(self.entries@, key) is Some,
            |key: Seq<char>| find(self.entries@, key)->0,
        )
    }
}

impl Registry {
    /// No extension is entered twice.
    pub closed spec fn wf(&self) -> bool {
        forall|i: int, j: int|
            0 <= i < j < self.entries@.len() ==> self.entries@[i].extension@
                != self.entries@[j].extension@
    }

    fn empty() -> (r: Registry)
        ensures
            r.wf(),
            r@ == Map::<Seq<char>, LanguageSpec>::empty(),
    {
        let r = Registry { entries: Vec::new() };
        assert(r@ =~= Map::<Seq<char>, LanguageSpec>::empty());
        r
    }

    fn insert(&mut self, extension: &str, spec: LanguageSpec)
        requires
            old(self).wf(),
            !old(self)@.contains_key(extension@),
        ensures
            final(self).wf(),
            final(self)@ == old(self)@.insert(extension@, spec),
    {
        let entry = Entry { extension: extension.to_owned(), spec };
        proof {
            assert forall|i: int| 0 <= i < self.entries@.len() implies self.entries@[i].extension@
                != extension@ by {
                Self::entry_is_found(self.entries@, i);
            }
            assert forall|key: Seq<char>|
                find(self.entries@.push(entry), key) == if extension@ == key {
                    Some(spec)
                } else {
                    #[trigger] find(self.entries@, key)
                } by {
                find_after_push(self.entries@, entry, key);
            }
        }
        self.entries.push(entry);
        assert(self@ =~= old(self)@.insert(extension@, spec));
    }

    proof fn entry_is_found(entries: Seq<Entry>, i: int)
        requires
            0 <= i < entries.len(),
        ensures
            find(entries, entries[i].extension@) is Some,
        decreases entries.len(),
    {
        if entries.last().extension@ != entries[i].extension@ {
            Self::entry_is_found(entries.drop_last(), i);
        }
    }

    /// The registry of the supported languages.
    pub fn new() -> (r: Registry)
        ensures
            r.wf(),
            r@ == standard_table(),
    {
        proof {
            reveal_strlit("c");
            reveal_strlit("cc");
            reveal_strlit("cpp");
            reveal_strlit("cxx");
            reveal_strlit("h");
            reveal_strlit("hh");
            reveal_strlit("hpp");
            reveal_strlit("hxx");
            reveal_strlit("py");
            reveal_strlit("rs");
            assert("c"@.len() == 1 && "c"@[0] == 'c');
            assert("h"@.len() == 1 && "h"@[0] == 'h');
            assert("cc"@.len() == 2 && "cc"@[0] == 'c');
            assert("hh"@.len() == 2 && "hh"@[0] == 'h');
            assert("py"@.len() == 2 && "py"@[0] == 'p');
            assert("rs"@.len() == 2 && "rs"@[0] == 'r');
            assert("cpp"@.len() == 3 && "cpp"@[0] == 'c' && "cpp"@[1] == 'p');
            assert("cxx"@.len() == 3 && "cxx"@[0] == 'c' && "cxx"@[1] == 'x');
            assert("hpp"@.len() == 3 && "hpp"@[0] == 'h' && "hpp"@[1] == 'p');
            assert("hxx"@.len() == 3 && "hxx"@[0] == 'h' && "hxx"@[1] == 'x');
        }
        let mut r = Registry::empty();
        r.insert("c", LanguageSpec::C);
        r.insert("cc", LanguageSpec::Cpp);
        r.insert("cpp", LanguageSpec::Cpp);
        r.insert("cxx", LanguageSpec::Cpp);
        r.insert("h", LanguageSpec::C);
        r.insert("hh", LanguageSpec::Cpp);
        r.insert("hpp", LanguageSpec::Cpp);
        r.insert("hxx", LanguageSpec::Cpp);
        r.insert("py", LanguageSpec::Python);
        r.insert("rs", LanguageSpec::Rust);
        r
    }

    /// The language registered for `extension`, or `None` where there is none: such a
    /// file is skipped.
    pub fn lookup(&self, extension: &str) -> (r: Option<LanguageSpec>)
        ensures
            r == if self@.contains_key(extension@) {
                Some(self@[extension@])
            } else {
                None
            },
    {
        let key = extension.to_owned();
        let mut i: usize = self.entries.len();
        assert(self.entries@.take(i as int) =~= self.entries@);
        while i > 0
            invariant
                i <= self.entries@.len(),
                key@ == extension@,
                find(self.entries@, key@) == find(self.entries@.take(i as int), key@),
            decreases i,
        {
            i -= 1;
            assert(self.entries@.take(i + 1).drop_last() =~= self.entries@.take(i as int));
            assert(self.entries@.take(i + 1).last() == self.entries@[i as int]);
            if self.entries[i].extension == key {
                return Some(self.entries[i].spec);
            }
        }
        assert(self.entries@.take(0).len() == 0);
        None
    }

    /// The language for an extension that may be absent: the one registered for it, if
    /// there is an extension and it is registered.
    pub open spec fn choice(&self, extension: Option<Seq<char>>) -> Option<LanguageSpec> {
        match extension {
            Some(e) if self@.contains_key(e) => Some(self@[e]),
            _ => None,
        }
    }

    /// The language for an extension that may be absent.
    pub fn select(&self, extension: &Option<String>) -> (r: Option<LanguageSpec>)
        ensures
            r == self.choice(
                match extension {
                    Some(e) => Some(e@),
                    None => None,
                },
            ),
    {
        match extension {
            Some(e) => self.lookup(e.as_str()),
            None => None,
        }
    }

    /// The language for the file at `path`, by the extension of its file name; `None`
    /// where the name has no extension or one that is not registered, and the file is
    /// then skipped. For a portable path the file name and its extension are those that
    /// `file_name` and `name_extension` give. For any other path the file name is what
    /// `std::path::Path` takes it to be on the platform, and a language that is found is
    /// registered for a part of the path that follows a dot.
    pub fn spec_for_path(&self, path: &str) -> (r: Option<LanguageSpec>)
        ensures
            portable_path(path@) ==> r == self.choice(path_extension_of(path@)),
            r matches Some(spec) ==> exists|e: Seq<char>|
                follows_dot(path@, e) && #[trigger] self@.contains_key(e) && self@[e] == spec,
    {
        let extension = path_extension(path);
        self.select(&extension)
    }
}

/// The part of `path` behind its last `/`, or all of it where it holds none.
pub open spec fn last_segment(path: Seq<char>) -> Seq<char>
    decreases path.len(),
{
    if path.len() == 0 || path.last() == '/' {
        Seq::empty()
    } else {
        last_segment(path.drop_last()).push(path.last())
    }
}

/// The part of `name` behind its last dot, or `None` where it holds no dot.
pub open spec fn dot_tail(name: Seq<char>) -> Option<Seq<char>>
    decreases name.len(),
{
    if name.len() == 0 {
        None
    } else if name.last() == '.' {
        Some(Seq::empty())
    } else {
        match dot_tail(name.drop_last()) {
            Some(tail) => Some(tail.push(name.last())),
            None => None,
        }
    }
}

/// The extension of a file name: what stands behind its last dot, unless the name holds
/// no dot or its only dot is its first character.
pub open spec fn name_extension(name: Seq<char>) -> Option<Seq<char>> {
    match dot_tail(name) {
        Some(tail) if tail.len() + 1 < name.len() => Some(tail),
        _ => None,
    }
}

/// The file name of `path`: its last segment, where separators at the end and segments
/// that are a single dot are passed over. There is none where no segment is left, where
/// the path is a single dot, or where the segment found is `..`.
pub open spec fn file_name(path: Seq<char>) -> Option<Seq<char>>
    decreases path.len(),
{
    let name = last_segment(path);
    if path.len() == 0 {
        None
    } else if path.last() == '/' {
        file_name(path.drop_last())
    } else if name == seq!['.'] {
        if path.len() == 1 {
            None
        } else {
            file_name(path.drop_last())
        }
    } else if name == seq!['.', '.'] {
        None
    } else {
        Some(name)
    }
}

/// The extension of the file name of `path`, if it has both.
pub open spec fn path_extension_of(path: Seq<char>) -> Option<Seq<char>> {
    match file_name(path) {
        Some(name) => name_extension(name),
        None => None,
    }
}

/// A path that every platform divides into segments at `/` and nowhere else: it holds no
/// `\`, its second character is not `:`, and it does not begin with `//`.
pub open spec fn portable_path(path: Seq<char>) -> bool {
    &&& !path.contains('\\')
    &&& !(path.len() >= 2 && path[1] == ':')
    &&& !(path.len() >= 2 && path[0] == '/' && path[1] == '/')
}

/// `extension` stands in `path` directly behind a dot and holds no dot itself.
pub open spec fn follows_dot(path: Seq<char>, extension: Seq<char>) -> bool {
    &&& !extension.contains('.')
    &&& exists|i: int|
        0 <= i && i + 1 + extension.len() <= path.len() && path[i] == '.' && #[trigger] path.subrange(
            i + 1,
            i + 1 + extension.len(),
        ) == extension
}

/// `std::path::Path::extension` on `path`, as a string. An extension is the part of the
/// path's file name behind the name's last dot; there is none where the path has no file
/// name, the name holds no dot, or its only dot comes first. The file name is the path's
/// last component, where a separator at the end and components that are a single dot
/// do not count, and a path that ends in `..` has none. The contract claims that for a
/// portable path, of which every platform takes the same components; for every other
/// path it claims only that an extension stands in `path` directly behind a dot and
/// holds no dot.
#[verifier::external_body]
fn path_extension(path: &str) -> (r: Option<String>)
    ensures
        portable_path(path@) ==> match r {
            Some(e) => path_extension_of(path@) == Some(e@),
            None => path_extension_of(path@) is None,
        },
        r matches Some(e) ==> follows_dot(path@, e@),
{
    std::path::Path::new(path).extension().and_then(|e| e.to_str()).map(|e| e.to_owned())
}

} // verus!
