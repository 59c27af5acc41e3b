//! Where the descriptor of an example comes from, and the key that the
//! example gets in the gallery.

use vstd::prelude::*;
use vstd::string::StringExecFns;
use crate::error::GalleryError;
use crate::paths::{file_extension, file_extension_of, file_stem, file_stem_of};
use crate::text::{equals, to_chars};

verus! {

/// The two shapes of a descriptor.
#[derive(Clone, Copy, Debug, PartialEq, Eq, Structural)]
pub enum MetadataSource {
    /// A document of its own that lists the fields of the record: an example
    /// that a user handed in.
    Declarative,
    /// The leading comment of the script: an official example.
    Embedded,
}

/// Examples of different sources never share a key, whatever their files
/// are called.
pub proof fn lemma_sources_have_separate_keys(official: Seq<char>, user: Seq<char>)
    ensures
        MetadataSource::Embedded.prefix() + official != MetadataSource::Declarative.prefix()
            + user,
{
    reveal_strlit("official-");
    reveal_strlit("user-");
    let one = MetadataSource::Embedded.prefix() + official;
    let other = MetadataSource::Declarative.prefix() + user;
    assert(one[0] == 'o');
    assert(other[0] == 'u');
}

/// Within one source, files with different stems get different keys.
pub proof fn lemma_keys_tell_stems_apart(source: MetadataSource, one: Seq<char>, other: Seq<char>)
    requires
        source.prefix() + one == source.prefix() + other,
    ensures
        one == other,
{
    let prefix = source.prefix();
    assert((prefix + one).skip(prefix.len() as int) =~= one);
    assert((prefix + other).skip(prefix.len() as int) =~= other);
}

impl MetadataSource {
    /// What the keys of the examples of this source start with.
    pub open spec fn prefix(self) -> Seq<char> {
        match self {
            MetadataSource::Declarative => "user-"@,
            MetadataSource::Embedded => "official-"@,
        }
    }

    /// The extension of the files that hold a descriptor of this source.
    pub open spec fn extension(self) -> Seq<char> {
        match self {
            MetadataSource::Declarative => "yaml"@,
            MetadataSource::Embedded => "py"@,
        }
    }

    /// Whether the file at `path` describes an example: it has the extension
    /// of the source, and is not the `__init__` of a directory of scripts.
    pub open spec fn describes(self, path: Seq<char>) -> bool {
        &&& file_extension_of(path) == Some(self.extension())
        &&& self == MetadataSource::Embedded ==> file_stem_of(path) != Some("__init__"@)
    }

    /// The key of the example that the file at `path` describes: the prefix
    /// of the source, then the stem of the file.  `Ok(None)` for a file that
    /// describes no example.
    pub open spec fn key_of(self, path: Seq<char>) -> Result<Option<Seq<char>>, GalleryError> {
        match file_stem_of(path) {
            None => Err(GalleryError::NoFileStem),
            Some(stem) => if self.describes(path) {
                Ok(Some(self.prefix() + stem))
            } else {
                Ok(None)
            },
        }
    }

    /// The key of the example that the file at `path` describes, if it
    /// describes one.
    pub fn example_id(self, path: &str) -> (r: Result<Option<String>, GalleryError>)
        ensures
            match self.key_of(path@) {
                Ok(Some(key)) => r is Ok && r->Ok_0 is Some && r->Ok_0->Some_0@ == key,
                Ok(None) => r is Ok && r->Ok_0 is None,
                Err(e) => r is Err && r->Err_0 == e,
            },
    {
        let stem = match file_stem(path) {
            Ok(stem) => stem,
            Err(e) => {
                return Err(e);
            },
        };
        let wanted = match self {
            MetadataSource::Declarative => "yaml",
            MetadataSource::Embedded => "py",
        };
        let fits = match file_extension(path) {
            Some(found) => equals(&to_chars(found.as_str()), wanted),
            None => false,
        };
        let init = match self {
            MetadataSource::Declarative => false,
            MetadataSource::Embedded => equals(&to_chars(stem.as_str()), "__init__"),
        };
        if fits && !init {
            let mut id = match self {
                MetadataSource::Declarative => "user-".to_owned(),
                MetadataSource::Embedded => "official-".to_owned(),
            };
            id.append(stem.as_str());
            Ok(Some(id))
        } else {
            Ok(None)
        }
    }
}

} // verus!
