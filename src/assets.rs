use vstd::prelude::*;
use crate::scan::{file_stem_of, path_stem};
use crate::table::AssetMap;

verus! {

/// The table after the files found by a scan are stored in order: each file
/// under its stem, a later one replacing an earlier one of the same stem, and
/// a file without a stem left out.
pub open spec fn with_files<T>(m: Map<Seq<char>, T>, files: Seq<(String, T)>) -> Map<Seq<char>, T>
    decreases files.len(),
{
    if files.len() == 0 {
        m
    } else {
        let rest = with_files(m, files.drop_last());
        match file_stem_of(files.last().0@) {
            Some(name) => rest.insert(name, files.last().1),
            None => rest,
        }
    }
}

/// The stems of the found files' paths.
pub open spec fn stems_of<T>(files: Seq<(String, T)>) -> Set<Seq<char>> {
    Set::new(
        |k: Seq<char>|
            exists|i: int| 0 <= i < files.len() && #[trigger] file_stem_of(files[i].0@) == Some(k),
    )
}

/// Found files that each have a stem, no two of them the same, stored into an
/// empty table give exactly as many entries as files: one under each file's
/// stem, holding the resource loaded from that file.
pub proof fn lemma_scan_one_entry_per_file<T>(files: Seq<(String, T)>)
    requires
        forall|i: int| 0 <= i < files.len() ==> (#[trigger] file_stem_of(files[i].0@)) is Some,
        forall|i: int, j: int|
            0 <= i < j < files.len() ==> #[trigger] file_stem_of(files[i].0@) != #[trigger] file_stem_of(
                files[j].0@,
            ),
    ensures
        with_files(Map::<Seq<char>, T>::empty(), files).dom().finite(),
        with_files(Map::<Seq<char>, T>::empty(), files).len() == files.len(),
        with_files(Map::<Seq<char>, T>::empty(), files).dom() == stems_of(files),
        forall|i: int|
            0 <= i < files.len() ==> with_files(Map::<Seq<char>, T>::empty(), files)[#[trigger] file_stem_of(
                files[i].0@,
            )->0] == files[i].1,
    decreases files.len(),
{
    let m = with_files(Map::<Seq<char>, T>::empty(), files);
    if files.len() == 0 {
        assert(stems_of(files) =~= Set::empty());
        assert(m.dom() =~= Set::empty());
    } else {
        let rest = files.drop_last();
        let n = files.len() - 1;
        assert forall|i: int| 0 <= i < rest.len() implies (#[trigger] file_stem_of(rest[i].0@)) is Some by {
            assert(rest[i] == files[i]);
        }
        assert forall|i: int, j: int| 0 <= i < j < rest.len() implies #[trigger] file_stem_of(rest[i].0@)
            != #[trigger] file_stem_of(rest[j].0@) by {
            assert(rest[i] == files[i]);
            assert(rest[j] == files[j]);
        }
        lemma_scan_one_entry_per_file(rest);
        let m0 = with_files(Map::<Seq<char>, T>::empty(), rest);
        let k = file_stem_of(files[n].0@)->0;
        assert(file_stem_of(files[n].0@) is Some);
        assert(m == m0.insert(k, files[n].1));
        assert(!m0.dom().contains(k)) by {
            if m0.dom().contains(k) {
                assert(stems_of(rest).contains(k));
                let i = choose|i: int| 0 <= i < rest.len() && #[trigger] file_stem_of(rest[i].0@) == Some(k);
                assert(rest[i] == files[i]);
                assert(file_stem_of(files[i].0@) != file_stem_of(files[n].0@));
            }
        }
        assert(m.dom() =~= stems_of(files)) by {
            assert forall|x: Seq<char>| stems_of(files).contains(x) implies m.dom().contains(x) by {
                let i = choose|i: int| 0 <= i < files.len() && #[trigger] file_stem_of(files[i].0@) == Some(x);
                if i < n {
                    assert(rest[i] == files[i]);
                    assert(stems_of(rest).contains(x));
                }
            }
            assert forall|x: Seq<char>| m.dom().contains(x) implies stems_of(files).contains(x) by {
                if x != k {
                    assert(stems_of(rest).contains(x));
                    let i = choose|i: int| 0 <= i < rest.len() && #[trigger] file_stem_of(rest[i].0@) == Some(x);
                    assert(rest[i] == files[i]);
                    assert(file_stem_of(files[i].0@) == Some(x));
                } else {
                    assert(file_stem_of(files[n].0@) == Some(x));
                }
            }
        }
        assert forall|i: int| 0 <= i < files.len() implies m[#[trigger] file_stem_of(files[i].0@)->0]
            == files[i].1 by {
            if i < n {
                assert(rest[i] == files[i]);
                assert(file_stem_of(files[i].0@) != file_stem_of(files[n].0@));
            }
        }
    }
}

/// The reserved name whose entry stands in for an absent texture or image.
pub open spec fn missing_name() -> Seq<char> {
    seq!['m', 'i', 's', 's', 'i', 'n', 'g']
}

/// The entry of `name` in `m`, or the reserved fallback entry where `name` is absent.
pub open spec fn lookup_or_missing<T>(m: Map<Seq<char>, T>, name: Seq<char>) -> T {
    if m.contains_key(name) {
        m[name]
    } else {
        m[missing_name()]
    }
}

/// The registry of a game's assets: one table per kind of resource.
pub struct Assets<Tex, Img, Snd, Mus, Mdl> {
    pub textures: AssetMap<Tex>,
    pub sounds: AssetMap<Snd>,
    pub music: AssetMap<Mus>,
    pub models: AssetMap<Mdl>,
    pub images: AssetMap<Img>,
}

impl<Tex, Img, Snd, Mus, Mdl> Assets<Tex, Img, Snd, Mus, Mdl> {
    /// Every table is well formed.
    pub open spec fn wf(&self) -> bool {
        &&& self.textures.wf()
        &&& self.sounds.wf()
        &&& self.music.wf()
        &&& self.models.wf()
        &&& self.images.wf()
    }

    /// A registry with every table empty.
    pub fn new() -> (r: Self)
        ensures
            r.wf(),
            r.textures@ == Map::<Seq<char>, Tex>::empty(),
            r.sounds@ == Map::<Seq<char>, Snd>::empty(),
            r.music@ == Map::<Seq<char>, Mus>::empty(),
            r.models@ == Map::<Seq<char>, Mdl>::empty(),
            r.images@ == Map::<Seq<char>, Img>::empty(),
    {
        Assets {
            textures: AssetMap::new(),
            sounds: AssetMap::new(),
            music: AssetMap::new(),
            models: AssetMap::new(),
            images: AssetMap::new(),
        }
    }

    /// Adds the textures loaded from a scan: each `(path, texture)` pair is
    /// stored under the stem of its path.
    pub fn with_textures(self, files: Vec<(String, Tex)>) -> (r: Self)
        requires
            self.wf(),
        ensures
            r.wf(),
            r.textures@ == with_files(self.textures@, files@),
            r.sounds == self.sounds,
            r.music == self.music,
            r.models == self.models,
            r.images == self.images,
    {
        let mut r = self;
        store_files(&mut r.textures, files);
        r
    }

    /// Adds the images loaded from a scan, each under the stem of its path.
    pub fn with_images(self, files: Vec<(String, Img)>) -> (r: Self)
        requires
            self.wf(),
        ensures
            r.wf(),
            r.images@ == with_files(self.images@, files@),
            r.textures == self.textures,
            r.sounds == self.sounds,
            r.music == self.music,
            r.models == self.models,
    {
        let mut r = self;
        store_files(&mut r.images, files);
        r
    }

    /// Adds the sounds loaded from a scan, each under the stem of its path.
    pub fn with_sounds(self, files: Vec<(String, Snd)>) -> (r: Self)
        requires
            self.wf(),
        ensures
            r.wf(),
            r.sounds@ == with_files(self.sounds@, files@),
            r.textures == self.textures,
            r.music == self.music,
            r.models == self.models,
            r.images == self.images,
    {
        let mut r = self;
        store_files(&mut r.sounds, files);
        r
    }

    /// Adds the music tracks loaded from a scan, each under the stem of its path.
    pub fn with_music(self, files: Vec<(String, Mus)>) -> (r: Self)
        requires
            self.wf(),
        ensures
            r.wf(),
            r.music@ == with_files(self.music@, files@),
            r.textures == self.textures,
            r.sounds == self.sounds,
            r.models == self.models,
            r.images == self.images,
    {
        let mut r = self;
        store_files(&mut r.music, files);
        r
    }

    /// Adds the models loaded from a scan, each under the stem of its path.
    pub fn with_models(self, files: Vec<(String, Mdl)>) -> (r: Self)
        requires
            self.wf(),
        ensures
            r.wf(),
            r.models@ == with_files(self.models@, files@),
            r.textures == self.textures,
            r.sounds == self.sounds,
            r.music == self.music,
            r.images == self.images,
    {
        let mut r = self;
        store_files(&mut r.models, files);
        r
    }

    /// The texture named `name`, or the reserved fallback texture where there
    /// is none of that name. One of the two must be present.
    pub fn get_tex(&self, name: &str) -> (r: &Tex)
        requires
            self.textures.wf(),
            self.textures@.contains_key(name@) || self.textures@.contains_key(missing_name()),
        ensures
            *r == lookup_or_missing(self.textures@, name@),
    {
        get_or_missing(&self.textures, name)
    }

    /// The image named `name`, or the reserved fallback image where there is
    /// none of that name. One of the two must be present.
    pub fn get_image(&self, name: &str) -> (r: &Img)
        requires
            self.images.wf(),
            self.images@.contains_key(name@) || self.images@.contains_key(missing_name()),
        ensures
            *r == lookup_or_missing(self.images@, name@),
    {
        get_or_missing(&self.images, name)
    }

    /// The model named `name`, which must be present.
    pub fn get_model(&self, name: &str) -> (r: &Mdl)
        requires
            self.models.wf(),
            self.models@.contains_key(name@),
        ensures
            *r == self.models@[name@],
    {
        self.models.entry(name)
    }

    /// The sound named `name`, which must be present.
    pub fn get_sound(&self, name: &str) -> (r: &Snd)
        requires
            self.sounds.wf(),
            self.sounds@.contains_key(name@),
        ensures
            *r == self.sounds@[name@],
    {
        self.sounds.entry(name)
    }

    /// The music track named `name`, which must be present.
    pub fn get_music(&self, name: &str) -> (r: &Mus)
        requires
            self.music.wf(),
            self.music@.contains_key(name@),
        ensures
            *r == self.music@[name@],
    {
        self.music.entry(name)
    }
}

/// The entry of `name`, or else that of the reserved fallback name.
fn get_or_missing<'a, T>(table: &'a AssetMap<T>, name: &str) -> (r: &'a T)
    requires
        table.wf(),
        table@.contains_key(name@) || table@.contains_key(missing_name()),
    ensures
        *r == lookup_or_missing(table@, name@),
{
    match table.get(name) {
        Some(v) => v,
        None => {
            proof { reveal_strlit("missing"); }
            assert("missing"@ == missing_name());
            table.entry("missing")
        },
    }
}

/// Stores each found file, given as its path and the resource loaded from it.
fn store_files<T>(table: &mut AssetMap<T>, files: Vec<(String, T)>)
    requires
        old(table).wf(),
    ensures
        final(table).wf(),
        final(table)@ == with_files(old(table)@, files@),
{
    let ghost start = table@;
    let ghost all = files@;
    for entry in it: files
        invariant
            table.wf(),
            it.seq() == all,
            table@ == with_files(start, all.take(it.index() as int)),
    {
        let ghost done = all.take(it.index() as int);
        let (path, item) = entry;
        assert(all.take(it.index() + 1).drop_last() == done);
        match path_stem(path.as_str()) {
            Some(name) => table.insert(name, item),
            None => {},
        }
    }
    assert(all.take(all.len() as int) == all);
}

} // verus!
