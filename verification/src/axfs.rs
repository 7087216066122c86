//! AXFS: the sovereign in-memory file table (at most `MAX_FILES` files; names
//! are kept to `NAME_LEN` bytes and contents to `DATA_LEN` bytes).
use vstd::prelude::*;
use crate::bytes::{ascii_bytes, copy_into, lit, slice_eq};

verus! {

pub const MAX_FILES: usize = 8;
pub const NAME_LEN: usize = 32;
pub const DATA_LEN: usize = 256;

#[derive(Clone, Copy)]
pub struct AxFile {
    pub name: [u8; NAME_LEN],
    pub name_len: usize,
    pub data: [u8; DATA_LEN],
    pub data_len: usize,
}

impl AxFile {
    pub open spec fn wf(self) -> bool {
        self.name_len <= NAME_LEN && self.data_len <= DATA_LEN
    }

    pub open spec fn name_seq(self) -> Seq<u8> {
        self.name@.subrange(0, self.name_len as int)
    }

    pub open spec fn data_seq(self) -> Seq<u8> {
        self.data@.subrange(0, self.data_len as int)
    }

    /// A blank slot: empty name and contents, both buffers zeroed.
    fn empty() -> (f: Self)
        ensures
            f.wf(),
            f.name_len == 0,
            f.data_len == 0,
            forall|i: int| 0 <= i < NAME_LEN ==> #[trigger] f.name@[i] == 0,
            forall|i: int| 0 <= i < DATA_LEN ==> #[trigger] f.data@[i] == 0,
    {
        AxFile { name: [0u8; NAME_LEN], name_len: 0, data: [0u8; DATA_LEN], data_len: 0 }
    }

    pub fn name_bytes(&self) -> (r: &[u8])
        requires
            self.wf(),
        ensures
            r@ == self.name_seq(),
    {
        self.name.as_slice().split_at(self.name_len).0
    }

    pub fn data_bytes(&self) -> (r: &[u8])
        requires
            self.wf(),
        ensures
            r@ == self.data_seq(),
    {
        self.data.as_slice().split_at(self.data_len).0
    }
}

/// The file table.
pub struct AxFs {
    files: Vec<AxFile>,
    initialized: bool,
}

/// A file as the table holds it: name and contents.
pub type FileView = (Seq<u8>, Seq<u8>);

pub open spec fn clip(s: Seq<u8>, n: int) -> Seq<u8> {
    if s.len() <= n {
        s
    } else {
        s.take(n)
    }
}

/// First file at or after `i` named `name`.
pub open spec fn first_file(fs: Seq<FileView>, name: Seq<u8>, i: int) -> Option<int>
    decreases fs.len() - i,
{
    if i < 0 || i >= fs.len() {
        None
    } else if fs[i].0 == name {
        Some(i)
    } else {
        first_file(fs, name, i + 1)
    }
}

/// The table after writing: the name is cut to `NAME_LEN` bytes and the
/// contents to `DATA_LEN`; an existing file of that name is overwritten in
/// place, otherwise the file is appended when there is room.
pub open spec fn spec_write(fs: Seq<FileView>, name: Seq<u8>, data: Seq<u8>) -> Option<Seq<FileView>> {
    let n = clip(name, NAME_LEN as int);
    let d = clip(data, DATA_LEN as int);
    match first_file(fs, n, 0) {
        Some(i) => Some(fs.update(i, (n, d))),
        None => if fs.len() >= MAX_FILES {
            None
        } else {
            Some(fs.push((n, d)))
        },
    }
}

/// Index of the first file named exactly `name`.
pub open spec fn spec_find(fs: Seq<FileView>, name: Seq<u8>) -> Option<int> {
    first_file(fs, name, 0)
}

/// The boot readme that `init` seeds.
pub open spec fn readme_name() -> Seq<u8> {
    ascii_bytes("readme.txt"@)
}

pub open spec fn readme_data() -> Seq<u8> {
    ascii_bytes("aiXos Phoenix -- Sovereign OS\nAIEONYX | Build: green\n"@)
}

impl AxFs {
    pub closed spec fn view(&self) -> Seq<FileView> {
        self.files@.map_values(|f: AxFile| (f.name_seq(), f.data_seq()))
    }

    pub closed spec fn live(&self) -> bool {
        self.initialized
    }

    pub closed spec fn wf(&self) -> bool {
        &&& self.files@.len() <= MAX_FILES
        &&& forall|i: int| 0 <= i < self.files@.len() ==> (#[trigger] self.files@[i]).wf()
    }

    pub proof fn lemma_wf(&self)
        requires
            self.wf(),
        ensures
            self@.len() <= MAX_FILES,
    {
    }

    /// An empty, not yet initialized table.
    pub fn new() -> (fs: Self)
        ensures
            fs.wf(),
            fs@ == Seq::<FileView>::empty(),
            !fs.live(),
    {
        let fs = AxFs { files: Vec::new(), initialized: false };
        assert(fs@ =~= Seq::<FileView>::empty());
        fs
    }

    /// Initializes the table once, seeding `readme.txt`.
    pub fn init(&mut self)
        requires
            old(self).wf(),
        ensures
            final(self).wf(),
            final(self).live(),
            old(self).live() ==> final(self)@ == old(self)@,
            !old(self).live() ==> final(self)@ == spec_write(old(self)@, readme_name(), readme_data()).unwrap_or(
                old(self)@,
            ),
    {
        if self.initialized {
            return;
        }
        self.initialized = true;
        proof {
            reveal_strlit("readme.txt");
            reveal_strlit("aiXos Phoenix -- Sovereign OS\nAIEONYX | Build: green\n");
        }
        self.write(lit("readme.txt"), lit("aiXos Phoenix -- Sovereign OS\nAIEONYX | Build: green\n"));
    }

    pub fn is_live(&self) -> (r: bool)
        ensures
            r == self.live(),
    {
        self.initialized
    }

    pub fn count(&self) -> (n: usize)
        ensures
            n == self@.len(),
    {
        self.files.len()
    }

    fn find_clipped(&self, name: &[u8]) -> (r: Option<usize>)
        requires
            self.wf(),
        ensures
            r == match first_file(self@, name@, 0) {
                Some(i) => Some(i as usize),
                None => None::<usize>,
            },
            r matches Some(i) ==> i < self@.len(),
    {
        let mut i: usize = 0;
        while i < self.files.len()
            invariant
                self.wf(),
                i <= self@.len(),
                self@.len() == self.files@.len(),
                first_file(self@, name@, 0) == first_file(self@, name@, i as int),
            decreases self.files.len() - i,
        {
            assert(self.files@[i as int].wf());
            assert(self@[i as int].0 == self.files@[i as int].name_seq());
            if slice_eq(self.files[i].name_bytes(), name) {
                return Some(i);
            }
            i = i + 1;
        }
        None
    }

    /// Writes (or overwrites) a file; `false` when the table is full.
    pub fn write(&mut self, name: &[u8], data: &[u8]) -> (r: bool)
        requires
            old(self).wf(),
        ensures
            final(self).wf(),
            final(self).live() == old(self).live(),
            r == spec_write(old(self)@, name@, data@) is Some,
            r ==> final(self)@ == spec_write(old(self)@, name@, data@)->0,
            !r ==> final(self)@ == old(self)@,
    {
        let nlen = if name.len() < NAME_LEN { name.len() } else { NAME_LEN };
        let dlen = if data.len() < DATA_LEN { data.len() } else { DATA_LEN };
        let n = &name[0..nlen];
        let d = &data[0..dlen];
        assert(n@ == clip(name@, NAME_LEN as int)) by {
            if name@.len() <= NAME_LEN {
                assert(n@ =~= name@);
            }
        }
        assert(d@ == clip(data@, DATA_LEN as int)) by {
            if data@.len() <= DATA_LEN {
                assert(d@ =~= data@);
            }
        }
        match self.find_clipped(n) {
            Some(i) => {
                proof {
                    lemma_first_file_found(self@, n@, 0);
                }
                let mut f = self.files[i];
                copy_into(&mut f.data, 0, d, dlen);
                f.data_len = dlen;
                assert(f.data_seq() =~= d@);
                self.files.set(i, f);
                assert(self@ =~= old(self)@.update(i as int, (n@, d@)));
                true
            },
            None => {
                if self.files.len() >= MAX_FILES {
                    return false;
                }
                let mut f = AxFile::empty();
                copy_into(&mut f.name, 0, n, nlen);
                f.name_len = nlen;
                copy_into(&mut f.data, 0, d, dlen);
                f.data_len = dlen;
                assert(f.name_seq() =~= n@);
                assert(f.data_seq() =~= d@);
                self.files.push(f);
                assert(self@ =~= old(self)@.push((n@, d@)));
                true
            },
        }
    }

    /// The file at index `i`, if there is one.
    pub fn file_at(&self, i: usize) -> (r: Option<&AxFile>)
        requires
            self.wf(),
        ensures
            i >= self@.len() ==> r is None,
            i < self@.len() ==> (r matches Some(f) && f.wf() && (f.name_seq(), f.data_seq()) == self@[i as int]),
    {
        if i >= self.files.len() {
            return None;
        }
        assert(self.files@[i as int].wf());
        Some(&self.files[i])
    }

    /// Index of the file named exactly `name`.
    pub fn find(&self, name: &[u8]) -> (r: Option<usize>)
        requires
            self.wf(),
        ensures
            r == match spec_find(self@, name@) {
                Some(i) => Some(i as usize),
                None => None::<usize>,
            },
    {
        self.find_clipped(name)
    }
}

/// A successful write is found again under its (shortened) name and reads
/// back the (shortened) contents.
pub proof fn lemma_find_after_write(fs: Seq<FileView>, name: Seq<u8>, data: Seq<u8>)
    requires
        spec_write(fs, name, data) is Some,
    ensures
        ({
            let t = spec_write(fs, name, data)->0;
            let k = spec_find(t, clip(name, NAME_LEN as int));
            k is Some && t[k->0].1 == clip(data, DATA_LEN as int)
        }),
{
    let n = clip(name, NAME_LEN as int);
    let t = spec_write(fs, name, data)->0;
    match first_file(fs, n, 0) {
        Some(i) => {
            lemma_first_file_found(fs, n, 0);
            lemma_first_file_update(fs, n, 0, i, clip(data, DATA_LEN as int));
        },
        None => {
            lemma_first_file_push(fs, n, 0, clip(data, DATA_LEN as int));
        },
    }
}

proof fn lemma_first_file_found(fs: Seq<FileView>, n: Seq<u8>, j: int)
    requires
        first_file(fs, n, j) is Some,
    ensures
        j <= first_file(fs, n, j)->0 < fs.len(),
        fs[first_file(fs, n, j)->0].0 == n,
    decreases fs.len() - j,
{
    if j >= 0 && j < fs.len() && fs[j].0 != n {
        lemma_first_file_found(fs, n, j + 1);
    }
}

proof fn lemma_first_file_update(fs: Seq<FileView>, n: Seq<u8>, j: int, i: int, d: Seq<u8>)
    requires
        0 <= j <= i,
        first_file(fs, n, j) == Some(i),
    ensures
        first_file(fs.update(i, (n, d)), n, j) == Some(i),
    decreases i - j,
{
    lemma_first_file_found(fs, n, j);
    if j < i {
        lemma_first_file_update(fs, n, j + 1, i, d);
    }
}

proof fn lemma_first_file_push(fs: Seq<FileView>, n: Seq<u8>, j: int, d: Seq<u8>)
    requires
        0 <= j <= fs.len(),
        first_file(fs, n, j) is None,
    ensures
        first_file(fs.push((n, d)), n, j) == Some(fs.len() as int),
    decreases fs.len() - j,
{
    if j < fs.len() {
        lemma_first_file_push(fs, n, j + 1, d);
    }
}


/// Writing a file name the table already holds always succeeds and keeps the
/// number of files: writing the same name twice takes the space of one file.
pub proof fn lemma_rewrite_keeps_count(fs: Seq<FileView>, name: Seq<u8>, d1: Seq<u8>, d2: Seq<u8>)
    requires
        spec_write(fs, name, d1) is Some,
    ensures
        ({
            let t = spec_write(fs, name, d1)->0;
            &&& spec_write(t, name, d2) is Some
            &&& spec_write(t, name, d2)->0.len() == t.len()
        }),
{
    lemma_find_after_write(fs, name, d1);
    let t = spec_write(fs, name, d1)->0;
    let n = clip(name, NAME_LEN as int);
    lemma_first_file_found(t, n, 0);
    let i = first_file(t, n, 0)->0;
    assert(spec_write(t, name, d2) == Some(t.update(i, (n, clip(d2, DATA_LEN as int)))));
}

} // verus!
