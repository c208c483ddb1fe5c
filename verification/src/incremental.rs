//! Source files found in a project, and the hashes recorded for them.
use vstd::prelude::*;
use crate::symbol::{Language, language_of_extension};
use crate::graph::{FileHash, FileHashView, hash_views};
use crate::text::{chars_of, string_of, rfind, rfind_chars, slice_range};
use crate::extract::{file_name_text, file_name_or_empty};
use crate::storage::{hashes_of_rows, record_hash, lemma_hashes_of_rows_distinct};

verus! {

/// A source file found in the project, with its language and content hash.
pub struct DiscoveredFile {
    pub path: String,
    pub language: Language,
    pub hash: [u8; 32],
}

/// The extension of a file name: what follows its last `.`, unless that dot
/// is the name's first character (or there is none).
pub open spec fn extension_of_name(name: Seq<char>) -> Option<Seq<char>> {
    let d = rfind(name, "."@);
    if d > 0 {
        Some(name.subrange(d + 1, name.len() as int))
    } else {
        None
    }
}

/// The language of the file at `path`, by the extension of its file name.
pub open spec fn language_of_path(path: Seq<char>) -> Option<Language> {
    match extension_of_name(file_name_or_empty(path)) {
        Some(e) => language_of_extension(e),
        None => language_of_extension(""@),
    }
}

/// The extension of the file name of `path` (`Path::extension`), if any.
pub fn path_extension(path: &str) -> (r: Option<String>)
    ensures
        crate::symbol::opt_view(r) == extension_of_name(file_name_or_empty(path@)),
{
    let name = file_name_text(path);
    let nc = chars_of(name.as_str());
    let dot = chars_of(".");
    proof {
        reveal_strlit(".");
    }
    match rfind_chars(&nc, &dot) {
        Some(d) => {
            proof {
                assert(dot@.len() == 1);
                assert(d + 1 <= nc@.len());
            }
            if d > 0 && d < nc.len() {
                let tail = slice_range(&nc, d + 1, nc.len());
                Some(string_of(&tail))
            } else {
                None
            }
        },
        None => None,
    }
}

/// The language of the file at `path`, decided by its extension; `None` for a
/// file of no supported language.
pub fn language_for_path(path: &str) -> (r: Option<Language>)
    ensures
        r == language_of_path(path@),
{
    match path_extension(path) {
        Some(e) => Language::from_extension(e.as_str()),
        None => Language::from_extension(""),
    }
}

/// The recorded hash of one discovered file.
pub open spec fn discovered_hash(f: DiscoveredFile) -> FileHashView {
    FileHashView { path: f.path@, hash: f.hash@ }
}

/// The path and hash of the discovered files, as a map from paths to hashes:
/// each path once, at its first place, with the hash of its last file.
pub fn build_hash_map(files: &Vec<DiscoveredFile>) -> (r: Vec<FileHash>)
    ensures
        hash_views(r@) == hashes_of_rows(files@.map_values(|f: DiscoveredFile| discovered_hash(f))),
        crate::hash::paths_distinct(hash_views(r@)),
{
    let ghost all = files@.map_values(|f: DiscoveredFile| discovered_hash(f));
    let mut r: Vec<FileHash> = Vec::new();
    let mut i: usize = 0;
    proof {
        assert(all.take(0) =~= Seq::<FileHashView>::empty());
    }
    while i < files.len()
        invariant
            i <= files@.len(),
            all == files@.map_values(|f: DiscoveredFile| discovered_hash(f)),
            hash_views(r@) == hashes_of_rows(all.take(i as int)),
        decreases files@.len() - i,
    {
        let h = FileHash { path: files[i].path.clone(), hash: files[i].hash };
        proof {
            assert(all.take(i as int + 1).drop_last() =~= all.take(i as int));
            assert(all.take(i as int + 1).last() == all[i as int]);
            assert(h@ == all[i as int]);
            assert(h@.hash.len() == 32);
        }
        record_hash(&mut r, h);
        i = i + 1;
    }
    proof {
        assert(all.take(files@.len() as int) =~= all);
        lemma_hashes_of_rows_distinct(all);
    }
    r
}

} // verus!
