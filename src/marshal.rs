use vstd::prelude::*;
use crate::dispatch::{Event, Job};
use vstd::slice::slice_to_vec;
use vstd::utf8::encode_utf8;

verus! {

#[derive(Debug, PartialEq, Eq)]
/// Why a call into the guest did not complete.
pub enum CallError {
    /// The guest has no export of this name with the expected signature.
    ExportNotFound(String),
    /// The guest trapped; the message is the runtime's.
    Trap(String),
    /// The allocator answered an offset at which `len` bytes do not fit in
    /// linear memory: the write would have gone out of bounds.
    OutOfBounds { offset: i32, len: usize },
    /// A string argument is longer than a 32-bit length can express.
    ArgumentTooLarge { len: usize },
    /// The lock of the shared target context was poisoned.
    LockPoisoned,
}

/// The index into linear memory that a 32-bit offset designates: the
/// offset read as unsigned.
pub open spec fn start_of(offset: i32) -> nat {
    (offset as u32) as nat
}

/// Whether `len` bytes fit in a memory of `mem_len` bytes at `offset`.
pub open spec fn fits(mem_len: nat, offset: i32, len: nat) -> bool {
    start_of(offset) + len <= mem_len
}

/// `mem` with `bytes` written from the index `start_of(offset)` on.
pub open spec fn stored(mem: Seq<u8>, offset: i32, bytes: Seq<u8>) -> Seq<u8> {
    Seq::new(
        mem.len(),
        |i: int|
            if start_of(offset) <= i < start_of(offset) + bytes.len() {
                bytes[i - start_of(offset)]
            } else {
                mem[i]
            },
    )
}

/// The `len` bytes of `mem` from the index `start_of(offset)` on.
pub open spec fn loaded(mem: Seq<u8>, offset: i32, len: nat) -> Seq<u8> {
    mem.subrange(start_of(offset) as int, (start_of(offset) + len) as int)
}

/// Copies `bytes` into `mem` at `offset`, or fails without writing when
/// they do not fit.
pub fn store_many(mem: &mut [u8], offset: i32, bytes: &[u8]) -> (r: Result<(), CallError>)
    ensures
        r is Ok <==> fits(old(mem)@.len(), offset, bytes@.len()),
        r is Ok ==> final(mem)@ == stored(old(mem)@, offset, bytes@),
        r is Err ==> final(mem)@ == old(mem)@ && r == Err::<(), CallError>(
            CallError::OutOfBounds { offset, len: bytes@.len() as usize },
        ),
{
    let start = offset as u32 as usize;
    let n = mem.len();
    if start > n || bytes.len() > n - start {
        return Err(CallError::OutOfBounds { offset, len: bytes.len() });
    }
    let mut i: usize = 0;
    while i < bytes.len()
        invariant
            start == start_of(offset),
            start + bytes@.len() <= n,
            n == old(mem)@.len(),
            mem@.len() == n,
            i <= bytes@.len(),
            forall|j: int|
                0 <= j < n ==> #[trigger] mem@[j] == if start <= j < start + i {
                    bytes@[j - start]
                } else {
                    old(mem)@[j]
                },
        decreases bytes@.len() - i,
    {
        mem[start + i] = bytes[i];
        i = i + 1;
    }
    assert(mem@ =~= stored(old(mem)@, offset, bytes@));
    Ok(())
}

/// Reads `len` bytes of `mem` at `offset`, or fails when they lie outside it.
pub fn load_many(mem: &[u8], offset: i32, len: i32) -> (r: Result<Vec<u8>, CallError>)
    ensures
        r is Ok <==> fits(mem@.len(), offset, start_of(len)),
        r matches Ok(v) ==> v@ == loaded(mem@, offset, start_of(len)),
        r is Err ==> r == Err::<Vec<u8>, CallError>(
            CallError::OutOfBounds { offset, len: start_of(len) as usize },
        ),
{
    let start = offset as u32 as usize;
    let count = len as u32 as usize;
    let n = mem.len();
    if start > n || count > n - start {
        return Err(CallError::OutOfBounds { offset, len: count });
    }
    let mut v: Vec<u8> = Vec::new();
    let mut i: usize = 0;
    while i < count
        invariant
            start == start_of(offset),
            count == start_of(len),
            start + count <= n,
            n == mem@.len(),
            i <= count,
            v@ == mem@.subrange(start as int, start + i),
        decreases count - i,
    {
        v.push(mem[start + i]);
        i = i + 1;
        assert(v@ =~= mem@.subrange(start as int, start + i));
    }
    Ok(v)
}

/// A string written at an offset reads back unchanged from that offset and
/// its length, and the write leaves the size of memory as it was.
pub proof fn lemma_store_load_round_trip(mem: Seq<u8>, offset: i32, bytes: Seq<u8>)
    requires
        fits(mem.len(), offset, bytes.len()),
    ensures
        stored(mem, offset, bytes).len() == mem.len(),
        loaded(stored(mem, offset, bytes), offset, bytes.len()) == bytes,
{
    assert(loaded(stored(mem, offset, bytes), offset, bytes.len()) =~= bytes);
}

/// After the id and then the data are written at the offsets the allocator
/// chose, both read back unchanged from the offsets and lengths that the
/// export receives, provided the two blocks do not overlap.
pub proof fn lemma_invoke_args_read_back(
    mem: Seq<u8>,
    id: Seq<u8>,
    data: Seq<u8>,
    id_ptr: i32,
    data_ptr: i32,
)
    requires
        fits(mem.len(), id_ptr, id.len()),
        fits(mem.len(), data_ptr, data.len()),
        start_of(id_ptr) + id.len() <= start_of(data_ptr) || start_of(data_ptr) + data.len()
            <= start_of(id_ptr),
    ensures
        loaded(stored(stored(mem, id_ptr, id), data_ptr, data), id_ptr, id.len()) == id,
        loaded(stored(stored(mem, id_ptr, id), data_ptr, data), data_ptr, data.len()) == data,
{
    let m2 = stored(stored(mem, id_ptr, id), data_ptr, data);
    assert(loaded(m2, id_ptr, id.len()) =~= id);
    assert(loaded(m2, data_ptr, data.len()) =~= data);
}

/// The next guest call that the host has to make for a marshaled event.
#[derive(Debug, Clone, Copy, PartialEq, Eq)]
pub enum Action {
    /// Call the guest allocator with these arguments and hand the offset
    /// it returns to `Handler::handler`.
    Alloc(i32, i32, i32, i32),
    /// Call the handler export with these arguments:
    /// (id offset, id length, data offset, data length).
    Invoke(i32, i32, i32, i32),
}

/// The arguments of an allocator call for `len` bytes: no old block,
/// alignment 1.
pub open spec fn alloc_action(len: nat) -> Action {
    Action::Alloc(0, 0, 1, len as i32)
}

/// The action that is due at `stage` of a call: allocate for the id, then
/// for the data, then invoke the export.
pub open spec fn action_at(stage: nat, id_len: nat, data_len: nat, id_ptr: i32, data_ptr: i32) -> Action {
    if stage == 0 {
        alloc_action(id_len)
    } else if stage == 1 {
        alloc_action(data_len)
    } else {
        Action::Invoke(id_ptr, id_len as i32, data_ptr, data_len as i32)
    }
}

/// One marshaled call of a guest handler: the event's two strings are
/// written, in order, at the offsets that the guest allocator chooses, and
/// the export is then invoked with those offsets and lengths.
pub struct Handler {
    id: Vec<u8>,
    data: Vec<u8>,
    stage: u8,
    id_ptr: i32,
    data_ptr: i32,
}

impl Handler {
    /// 0: the id awaits its offset; 1: the data does; 2: both are written.
    pub closed spec fn stage(&self) -> nat {
        self.stage as nat
    }

    /// The bytes of the event id.
    pub closed spec fn id_bytes(&self) -> Seq<u8> {
        self.id@
    }

    /// The bytes of the event data.
    pub closed spec fn data_bytes(&self) -> Seq<u8> {
        self.data@
    }

    /// Where the id was written.
    pub closed spec fn id_offset(&self) -> i32 {
        self.id_ptr
    }

    /// Where the data was written.
    pub closed spec fn data_offset(&self) -> i32 {
        self.data_ptr
    }

    pub closed spec fn wf(&self) -> bool {
        self.stage <= 2 && self.id@.len() <= i32::MAX && self.data@.len() <= i32::MAX
    }

    /// The action that is due now.
    pub open spec fn due(&self) -> Action {
        action_at(self.stage(), self.id_bytes().len(), self.data_bytes().len(), self.id_offset(), self.data_offset())
    }

    /// The bytes written by the next allocator answer.
    pub open spec fn pending(&self) -> Seq<u8> {
        if self.stage() == 0 {
            self.id_bytes()
        } else {
            self.data_bytes()
        }
    }

    /// Starts the marshaling of `ev`; fails when one of its strings is
    /// longer than a 32-bit length.
    pub fn new(ev: &Event) -> (r: Result<Handler, CallError>)
        ensures
            r is Ok <==> encode_utf8(ev.id@).len() <= i32::MAX && encode_utf8(ev.data@).len()
                <= i32::MAX,
            r matches Ok(h) ==> h.wf() && h.stage() == 0 && h.id_bytes() == encode_utf8(ev.id@)
                && h.data_bytes() == encode_utf8(ev.data@),
            r matches Err(e) ==> (encode_utf8(ev.id@).len() > i32::MAX && e
                == CallError::ArgumentTooLarge { len: encode_utf8(ev.id@).len() as usize }) || (
            encode_utf8(ev.id@).len() <= i32::MAX && e == CallError::ArgumentTooLarge {
                len: encode_utf8(ev.data@).len() as usize,
            }),
    {
        let id = ev.id.as_str().as_bytes();
        let data = ev.data.as_str().as_bytes();
        if id.len() > 0x7fff_ffff {
            return Err(CallError::ArgumentTooLarge { len: id.len() });
        }
        if data.len() > 0x7fff_ffff {
            return Err(CallError::ArgumentTooLarge { len: data.len() });
        }
        Ok(Handler { id: slice_to_vec(id), data: slice_to_vec(data), stage: 0, id_ptr: 0, data_ptr: 0 })
    }

    /// The guest call that is due now.
    pub fn request(&self) -> (r: Action)
        requires
            self.wf(),
        ensures
            r == self.due(),
    {
        let id_len = self.id.len() as i32;
        let data_len = self.data.len() as i32;
        if self.stage == 0 {
            Action::Alloc(0, 0, 1, id_len)
        } else if self.stage == 1 {
            Action::Alloc(0, 0, 1, data_len)
        } else {
            Action::Invoke(self.id_ptr, id_len, self.data_ptr, data_len)
        }
    }

    /// Takes the offset that the guest allocator returned, writes the
    /// pending string there and returns the next guest call. Fails, with
    /// memory and handler unchanged, when the string does not fit there.
    pub fn handler(&mut self, mem: &mut [u8], offset: i32) -> (r: Result<Action, CallError>)
        requires
            old(self).wf(),
            old(self).stage() < 2,
        ensures
            r is Ok <==> fits(old(mem)@.len(), offset, old(self).pending().len()),
            r matches Ok(a) ==> {
                &&& final(mem)@ == stored(old(mem)@, offset, old(self).pending())
                &&& final(self).wf()
                &&& final(self).stage() == old(self).stage() + 1
                &&& final(self).id_bytes() == old(self).id_bytes()
                &&& final(self).data_bytes() == old(self).data_bytes()
                &&& old(self).stage() == 0 ==> final(self).id_offset() == offset
                &&& old(self).stage() == 1 ==> final(self).id_offset() == old(self).id_offset()
                    && final(self).data_offset() == offset
                &&& a == final(self).due()
            },
            r is Err ==> {
                &&& final(mem)@ == old(mem)@
                &&& *final(self) == *old(self)
                &&& r == Err::<Action, CallError>(
                    CallError::OutOfBounds { offset, len: old(self).pending().len() as usize },
                )
            },
    {
        let res = if self.stage == 0 {
            store_many(mem, offset, self.id.as_slice())
        } else {
            store_many(mem, offset, self.data.as_slice())
        };
        match res {
            Err(e) => Err(e),
            Ok(()) => {
                if self.stage == 0 {
                    self.id_ptr = offset;
                } else {
                    self.data_ptr = offset;
                }
                self.stage = self.stage + 1;
                Ok(self.request())
            },
        }
    }
}

/// Per-instance state of the marshaling layer. The flat calling convention
/// keeps nothing between calls, so it is empty.
pub struct HandlerData {}

impl Default for HandlerData {
    fn default() -> (r: HandlerData)
        ensures
            r == (HandlerData {}),
    {
        HandlerData {}
    }
}

/// Whether `name` is among `exports`.
pub open spec fn has_export(exports: Seq<Seq<char>>, name: Seq<char>) -> bool {
    exists|j: int| 0 <= j < exports.len() && exports[j] == name
}

/// Looks `name` up among the names a guest exports: the first index that
/// holds it, or `ExportNotFound` with the name.
pub fn resolve_export(exports: &Vec<String>, name: &str) -> (r: Result<usize, CallError>)
    ensures
        r is Ok <==> has_export(exports@.map_values(|s: String| s@), name@),
        r matches Ok(i) ==> i < exports.len() && exports[i as int]@ == name@ && (forall|j: int|
            0 <= j < i ==> exports[j]@ != name@),
        r matches Err(e) ==> e matches CallError::ExportNotFound(n) && n@ == name@,
{
    let target = name.to_string();
    let mut i: usize = 0;
    while i < exports.len()
        invariant
            target@ == name@,
            i <= exports.len(),
            forall|j: int| 0 <= j < i ==> exports[j]@ != name@,
        decreases exports.len() - i,
    {
        if exports[i] == target {
            proof {
                let v = exports@.map_values(|s: String| s@);
                assert(v[i as int] == name@);
            }
            return Ok(i);
        }
        i = i + 1;
    }
    proof {
        let v = exports@.map_values(|s: String| s@);
        assert forall|j: int| 0 <= j < v.len() implies v[j] != name@ by {
            assert(v[j] == exports[j]@);
        }
    }
    Err(CallError::ExportNotFound(target))
}

/// Name of the allocator that every guest exports.
pub open spec fn realloc_export() -> Seq<char> {
    seq![
        'c', 'a', 'n', 'o', 'n', 'i', 'c', 'a', 'l', '_', 'a', 'b', 'i', '_', 'r', 'e', 'a', 'l', 'l',
        'o', 'c',
    ]
}

/// Name of the linear memory that every guest exports.
pub open spec fn memory_export() -> Seq<char> {
    seq!['m', 'e', 'm', 'o', 'r', 'y']
}

/// Prepares one dispatch job against a guest that exports `exports`: the
/// allocator, the job's handler and the memory are looked up in that
/// order, and the marshaling of the job's event is started. Returns the
/// index of the handler export beside the handler.
pub fn prepare(exports: &Vec<String>, job: &Job) -> (r: Result<(usize, Handler), CallError>)
    ensures
        ({
            let names = exports@.map_values(|s: String| s@);
            &&& r is Ok <==> has_export(names, realloc_export()) && has_export(names, job.export@)
                && has_export(names, memory_export()) && encode_utf8(job.event.id@).len()
                <= i32::MAX && encode_utf8(job.event.data@).len() <= i32::MAX
            &&& r matches Ok((i, h)) ==> i < exports.len() && exports[i as int]@ == job.export@
                && h.wf() && h.stage() == 0 && h.id_bytes() == encode_utf8(job.event.id@)
                && h.data_bytes() == encode_utf8(job.event.data@)
            &&& !has_export(names, realloc_export()) ==> (r matches Err(
                CallError::ExportNotFound(n),
            ) && n@ == realloc_export())
            &&& has_export(names, realloc_export()) && !has_export(names, job.export@) ==> (r matches Err(
                CallError::ExportNotFound(n),
            ) && n@ == job.export@)
            &&& has_export(names, realloc_export()) && has_export(names, job.export@) && !has_export(
                names,
                memory_export(),
            ) ==> (r matches Err(CallError::ExportNotFound(n)) && n@ == memory_export())
        }),
{
    let realloc = "canonical_abi_realloc";
    let memory = "memory";
    proof {
        reveal_strlit("canonical_abi_realloc");
        reveal_strlit("memory");
        assert(realloc@ =~= realloc_export());
        assert(memory@ =~= memory_export());
    }
    let _ = resolve_export(exports, realloc)?;
    let index = resolve_export(exports, job.export.as_str())?;
    let _ = resolve_export(exports, memory)?;
    let handler = Handler::new(&job.event)?;
    Ok((index, handler))
}

} // verus!
