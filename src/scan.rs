use vstd::prelude::*;
use vstd::string::StringExecFns;

verus! {

/// The stem of a file path (its final component without the last extension),
/// as `std::path::Path::file_stem` computes it on this target.
pub uninterp spec fn file_stem_of(path: Seq<char>) -> Option<Seq<char>>;

/// Relies on std::path::Path::file_stem for the name under which a found file
/// is stored; `None` where the path has no file name.
#[verifier::external_body]
pub(crate) fn path_stem(path: &str) -> (r: Option<String>)
    ensures
        match r {
            Some(s) => file_stem_of(path@) == Some(s@),
            None => file_stem_of(path@) is None,
        },
{
    match std::path::Path::new(path).file_stem() {
        Some(stem) => stem.to_str().map(String::from),
        None => None,
    }
}

/// The kinds of asset a game loads, each from files of one extension.
#[derive(Clone, Copy, Debug, PartialEq, Eq, Structural)]
pub enum AssetKind {
    Texture,
    Image,
    Sound,
    Music,
    Model,
}

pub open spec fn extension_of(kind: AssetKind) -> Seq<char> {
    match kind {
        AssetKind::Texture | AssetKind::Image => seq!['.', 'p', 'n', 'g'],
        AssetKind::Sound | AssetKind::Music => seq!['.', 'w', 'a', 'v'],
        AssetKind::Model => seq!['.', 'g', 'l', 'b'],
    }
}

/// The glob pattern that finds the files of `ext` directly inside `dir`.
pub open spec fn pattern_of(dir: Seq<char>, ext: Seq<char>) -> Seq<char> {
    dir + seq!['/', '*'] + ext
}

impl AssetKind {
    /// The file extension, dot included, of this kind's files.
    pub fn extension(&self) -> (r: &'static str)
        ensures
            r@ == extension_of(*self),
    {
        match self {
            AssetKind::Texture | AssetKind::Image => {
                proof { reveal_strlit(".png"); }
                ".png"
            },
            AssetKind::Sound | AssetKind::Music => {
                proof { reveal_strlit(".wav"); }
                ".wav"
            },
            AssetKind::Model => {
                proof { reveal_strlit(".glb"); }
                ".glb"
            },
        }
    }
}

/// The pattern that a directory scan for `kind` in `dir` globs.
pub fn scan_pattern(dir: &str, kind: AssetKind) -> (r: String)
    ensures
        r@ == pattern_of(dir@, extension_of(kind)),
{
    let mut pattern = String::from_str(dir);
    proof { reveal_strlit("/*"); }
    pattern.append("/*");
    pattern.append(kind.extension());
    pattern
}

} // verus!
