use vstd::prelude::*;

verus! {

/// A DMA transfer buffer.
///
/// The hardware works on pinned, aligned memory; what this layer reads and
/// writes of such a buffer is its bytes, so the buffer is held as an owned
/// byte vector of fixed length, zero-filled on allocation.
pub struct DmaBuf {
    data: Vec<u8>,
}

/// Index of the first NUL byte of `s`, or `s.len()` when none occurs.
pub open spec fn nul_index(s: Seq<u8>) -> int
    decreases s.len(),
{
    if s.len() == 0 {
        0
    } else if s[0] == 0 {
        0
    } else {
        1 + nul_index(s.skip(1))
    }
}

/// The bytes of `s` before its first NUL: the C-string contents of a buffer.
pub open spec fn cstr_prefix(s: Seq<u8>) -> Seq<u8> {
    s.take(nul_index(s))
}

pub proof fn lemma_nul_index_bounds(s: Seq<u8>)
    ensures
        0 <= nul_index(s) <= s.len(),
        forall|i: int| 0 <= i < nul_index(s) ==> s[i] != 0,
        nul_index(s) < s.len() ==> s[nul_index(s)] == 0,
    decreases s.len(),
{
    if s.len() == 0 {
    } else if s[0] == 0 {
    } else {
        lemma_nul_index_bounds(s.skip(1));
        assert forall|i: int| 0 <= i < nul_index(s) implies s[i] != 0 by {
            if i >= 1 {
                assert(s.skip(1)[i - 1] == s[i]);
            }
        }
        if nul_index(s) < s.len() {
            assert(s.skip(1)[nul_index(s) - 1] == s[nul_index(s)]);
        }
    }
}

pub proof fn lemma_nul_index_is(s: Seq<u8>, k: int)
    requires
        0 <= k <= s.len(),
        forall|i: int| 0 <= i < k ==> s[i] != 0,
        k < s.len() ==> s[k] == 0,
    ensures
        nul_index(s) == k,
    decreases s.len(),
{
    if s.len() == 0 {
    } else if s[0] == 0 {
    } else {
        assert forall|i: int| 0 <= i < k - 1 implies s.skip(1)[i] != 0 by {
            assert(s.skip(1)[i] == s[i + 1]);
        }
        if k < s.len() {
            assert(s.skip(1)[k - 1] == s[k]);
        }
        lemma_nul_index_is(s.skip(1), k - 1);
    }
}

/// The bytes of a buffer of contents `before` after C-string formatting of
/// `content` into it: as much of `content` as fits before a terminating NUL,
/// the NUL, and the old bytes past it.
pub open spec fn filled_cstr(before: Seq<u8>, content: Seq<u8>) -> Seq<u8> {
    let m = copied_len(content.len() as int, before.len() as int);
    Seq::new(
        before.len(),
        |i: int|
            if i < m {
                content[i]
            } else if i == m {
                0u8
            } else {
                before[i]
            },
    )
}

/// Number of bytes of a `content_len`-byte payload that C-string formatting
/// copies into a `size`-byte buffer: all of them when they fit before the
/// terminator, else `size - 1`.
pub open spec fn copied_len(content_len: int, size: int) -> int {
    if content_len < size {
        content_len
    } else {
        size - 1
    }
}

impl View for DmaBuf {
    type V = Seq<u8>;

    closed spec fn view(&self) -> Seq<u8> {
        self.data@
    }
}

impl DmaBuf {
    /// A fresh zero-filled buffer of `size` bytes, as the DMA allocator hands
    /// them out.
    pub fn zeroed(size: usize) -> (r: DmaBuf)
        ensures
            r@ == Seq::new(size as nat, |i: int| 0u8),
    {
        let mut data: Vec<u8> = Vec::new();
        let mut i: usize = 0;
        while i < size
            invariant
                i <= size,
                data@ == Seq::new(i as nat, |j: int| 0u8),
            decreases size - i,
        {
            data.push(0);
            i = i + 1;
            assert(data@ =~= Seq::new(i as nat, |j: int| 0u8));
        }
        DmaBuf { data }
    }

    pub fn len(&self) -> (r: usize)
        ensures
            r == self@.len(),
    {
        self.data.len()
    }

    pub fn byte_at(&self, i: usize) -> (r: u8)
        requires
            i < self@.len(),
        ensures
            r == self@[i as int],
    {
        self.data[i]
    }

    pub fn as_slice(&self) -> (r: &[u8])
        ensures
            r@ == self@,
    {
        self.data.as_slice()
    }

    /// Write `content` into the buffer the way the C formatting routine the
    /// driver feeds it to does: copy as much as fits before a terminating
    /// NUL, place the NUL, and leave the tail untouched.
    pub fn fill_cstr(&mut self, content: &[u8])
        requires
            old(self)@.len() >= 1,
        ensures
            final(self)@ == filled_cstr(old(self)@, content@),
    {
        let size = self.data.len();
        let m = if content.len() < size {
            content.len()
        } else {
            size - 1
        };
        let mut i: usize = 0;
        while i < m
            invariant
                i <= m,
                m == copied_len(content@.len() as int, old(self)@.len() as int),
                m < self@.len(),
                self@.len() == old(self)@.len(),
                content@.len() >= m,
                forall|j: int| 0 <= j < i ==> self@[j] == content@[j],
                forall|j: int| i <= j < self@.len() ==> self@[j] == old(self)@[j],
            decreases m - i,
        {
            let b = content[i];
            self.data[i] = b;
            i = i + 1;
        }
        self.data[m] = 0;
        proof {
            assert(self@ =~= filled_cstr(old(self)@, content@));
        }
    }

    /// Overwrite the front of the buffer with `data`, as the hardware does
    /// when it lands the payload of a finished read: `data` is truncated to
    /// the buffer's length, and bytes past it keep their old value.
    pub fn write_prefix(&mut self, data: &[u8])
        ensures
            final(self)@ == Seq::new(
                old(self)@.len(),
                |i: int| if i < data@.len() { data@[i] } else { old(self)@[i] },
            ),
    {
        let n = self.data.len();
        let m = if data.len() < n {
            data.len()
        } else {
            n
        };
        let mut i: usize = 0;
        while i < m
            invariant
                i <= m,
                m <= data@.len(),
                m <= self@.len(),
                self@.len() == old(self)@.len(),
                forall|j: int| 0 <= j < i ==> self@[j] == data@[j],
                forall|j: int| i <= j < self@.len() ==> self@[j] == old(self)@[j],
            decreases m - i,
        {
            let b = data[i];
            self.data[i] = b;
            i = i + 1;
        }
        assert(self@ =~= Seq::new(
            old(self)@.len(),
            |i: int| if i < data@.len() { data@[i] } else { old(self)@[i] },
        ));
    }

    /// The C-string contents of the buffer: its bytes before the first NUL.
    pub fn read_cstr(&self) -> (r: Vec<u8>)
        ensures
            r@ == cstr_prefix(self@),
    {
        let mut out: Vec<u8> = Vec::new();
        let mut i: usize = 0;
        let n = self.data.len();
        while i < n && self.data[i] != 0
            invariant
                i <= n,
                n == self@.len(),
                forall|j: int| 0 <= j < i ==> self@[j] != 0,
                out@ == self@.take(i as int),
            decreases n - i,
        {
            let b = self.data[i];
            out.push(b);
            i = i + 1;
            assert(out@ =~= self@.take(i as int));
        }
        proof {
            lemma_nul_index_is(self@, i as int);
        }
        out
    }
}

/// Law: filling a buffer with NUL-free content that fits and reading the
/// buffer back as a C string yields the content unchanged.
pub proof fn lemma_fill_read_roundtrip(before: Seq<u8>, after: Seq<u8>, content: Seq<u8>)
    requires
        before.len() >= 1,
        content.len() < before.len(),
        forall|i: int| 0 <= i < content.len() ==> content[i] != 0,
        after.len() == before.len(),
        forall|i: int| 0 <= i < content.len() ==> after[i] == content[i],
        after[content.len() as int] == 0,
    ensures
        cstr_prefix(after) == content,
{
    lemma_nul_index_is(after, content.len() as int);
    assert(after.take(content.len() as int) =~= content);
}

} // verus!
