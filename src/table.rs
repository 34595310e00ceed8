use vstd::prelude::*;

verus! {

/// A table from asset names to loaded resources. Each name occurs at most once.
pub struct AssetMap<T> {
    names: Vec<String>,
    items: Vec<T>,
    contents: Ghost<Map<Seq<char>, T>>,
}

impl<T> View for AssetMap<T> {
    type V = Map<Seq<char>, T>;

    closed spec fn view(&self) -> Map<Seq<char>, T> {
        self.contents@
    }
}

impl<T> AssetMap<T> {
    /// The names are unique, and the entry at each position is the one the
    /// abstract map holds under that position's name.
    pub closed spec fn wf(&self) -> bool {
        &&& self.names.len() == self.items.len()
        &&& self.contents@.dom().finite()
        &&& self.contents@.dom().len() == self.names.len()
        &&& forall|i: int, j: int|
            0 <= i < j < self.names.len() ==> #[trigger] self.names[i]@ != #[trigger] self.names[j]@
        &&& forall|i: int|
            0 <= i < self.names.len() ==> self.contents@.contains_key(#[trigger] self.names[i]@)
                && self.contents@[self.names[i]@] == self.items[i]
        &&& forall|k: Seq<char>|
            #[trigger] self.contents@.contains_key(k) ==> exists|i: int|
                0 <= i < self.names.len() && #[trigger] self.names[i]@ == k
    }

    /// An empty table.
    pub fn new() -> (r: Self)
        ensures
            r.wf(),
            r@ == Map::<Seq<char>, T>::empty(),
    {
        AssetMap { names: Vec::new(), items: Vec::new(), contents: Ghost(Map::empty()) }
    }

    /// Position of `name` among the stored names.
    fn position(&self, name: &String) -> (r: Option<usize>)
        requires
            self.wf(),
        ensures
            match r {
                Some(i) => i < self.names.len() && self.names[i as int]@ == name@,
                None => !self@.contains_key(name@),
            },
    {
        let n = self.names.len();
        let mut i: usize = 0;
        while i < n
            invariant
                self.wf(),
                n == self.names.len(),
                i <= n,
                forall|j: int| 0 <= j < i ==> self.names[j]@ != name@,
            decreases n - i,
        {
            if self.names[i] == *name {
                return Some(i);
            }
            i = i + 1;
        }
        None
    }

    /// Number of entries.
    pub fn len(&self) -> (r: usize)
        requires
            self.wf(),
        ensures
            r == self@.len(),
    {
        self.names.len()
    }

    /// Whether an entry is stored under `name`.
    pub fn contains_key(&self, name: &str) -> (r: bool)
        requires
            self.wf(),
        ensures
            r == self@.contains_key(name@),
    {
        let key = name.to_owned();
        self.position(&key).is_some()
    }

    /// The entry stored under `name`, if any.
    pub fn get(&self, name: &str) -> (r: Option<&T>)
        requires
            self.wf(),
        ensures
            match r {
                Some(v) => self@.contains_key(name@) && *v == self@[name@],
                None => !self@.contains_key(name@),
            },
    {
        let key = name.to_owned();
        match self.position(&key) {
            Some(i) => Some(&self.items[i]),
            None => None,
        }
    }

    /// The entry stored under `name`, which the table holds.
    pub fn entry(&self, name: &str) -> (r: &T)
        requires
            self.wf(),
            self@.contains_key(name@),
        ensures
            *r == self@[name@],
    {
        let key = name.to_owned();
        let n = self.names.len();
        let mut i: usize = 0;
        while self.names[i] != key
            invariant
                self.wf(),
                n == self.names.len(),
                i < n,
                exists|j: int| i <= j < n && #[trigger] self.names[j]@ == key@,
            decreases n - i,
        {
            i = i + 1;
        }
        &self.items[i]
    }

    /// Stores `item` under `name`, replacing any entry already there.
    pub fn insert(&mut self, name: String, item: T)
        requires
            old(self).wf(),
        ensures
            final(self).wf(),
            final(self)@ == old(self)@.insert(name@, item),
    {
        let ghost old_map = self.contents@;
        match self.position(&name) {
            Some(i) => {
                self.items[i] = item;
                self.contents = Ghost(old_map.insert(name@, item));
                assert(self.contents@.dom() =~= old_map.dom());
                assert forall|k: Seq<char>| #[trigger] self.contents@.contains_key(k) implies exists|j: int|
                    0 <= j < self.names.len() && #[trigger] self.names[j]@ == k by {
                    if k != name@ {
                        assert(old_map.contains_key(k));
                        let j = choose|j: int| 0 <= j < self.names.len() && #[trigger] self.names[j]@ == k;
                        assert(self.names[j]@ == k);
                    } else {
                        assert(self.names[i as int]@ == k);
                    }
                }
            },
            None => {
                let ghost n = self.names.len();
                self.names.push(name);
                self.items.push(item);
                self.contents = Ghost(old_map.insert(self.names[n as int]@, item));
                assert forall|k: Seq<char>| #[trigger] self.contents@.contains_key(k) implies exists|j: int|
                    0 <= j < self.names.len() && #[trigger] self.names[j]@ == k by {
                    if k != self.names[n as int]@ {
                        assert(old_map.contains_key(k));
                        let j = choose|j: int| 0 <= j < n && #[trigger] old(self).names[j]@ == k;
                        assert(self.names[j]@ == k);
                    } else {
                        assert(self.names[n as int]@ == k);
                    }
                }
            },
        }
    }
}

} // verus!
