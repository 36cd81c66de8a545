//! Byte-level model of the process memory that the hooks patch, and the
//! chunking that `ProcMem::write_n` applies to large writes.
use vstd::prelude::*;

verus! {

/// One write of `bytes` starting at address `addr`.
pub struct MemWrite {
    pub addr: usize,
    pub bytes: Vec<u8>,
}

impl View for MemWrite {
    type V = (int, Seq<u8>);

    open spec fn view(&self) -> (int, Seq<u8>) {
        (self.addr as int, self.bytes@)
    }
}

/// The errors that memory access can report.
pub enum MemoryError {
    ProcInvalid,
    InvalidTechnique,
}

/// Memory after `bytes` have been stored from address `addr` on.
pub open spec fn write_bytes(mem: Map<int, u8>, addr: int, bytes: Seq<u8>) -> Map<int, u8> {
    Map::new(
        |a: int| mem.dom().contains(a) || (addr <= a < addr + bytes.len()),
        |a: int| if addr <= a < addr + bytes.len() { bytes[a - addr] } else { mem[a] },
    )
}

/// Memory after the writes of `ws` have been performed in order.
pub open spec fn apply_writes(mem: Map<int, u8>, ws: Seq<(int, Seq<u8>)>) -> Map<int, u8>
    decreases ws.len(),
{
    if ws.len() == 0 {
        mem
    } else {
        let last = ws.last();
        write_bytes(apply_writes(mem, ws.drop_last()), last.0, last.1)
    }
}

/// The abstract writes that a vector of `MemWrite`s stands for.
pub open spec fn writes_view(ws: Seq<MemWrite>) -> Seq<(int, Seq<u8>)> {
    ws.map_values(|w: MemWrite| w@)
}

/// Width of the next chunk that `write_n` stores when `rest` bytes are left:
/// eight bytes while the rest is a multiple of eight, else four, two or one.
pub open spec fn chunk_width(rest: nat) -> nat {
    if rest % 8 == 0 {
        8
    } else if rest % 4 == 0 {
        4
    } else if rest % 2 == 0 {
        2
    } else {
        1
    }
}

/// The (offset, width) pairs of the chunks that `write_n` issues when `rest`
/// bytes remain to be written from offset `done` on.
pub open spec fn chunk_plan(done: nat, rest: nat) -> Seq<(nat, nat)>
    decreases rest,
{
    if rest == 0 {
        seq![]
    } else {
        let w = chunk_width(rest);
        if w <= rest {
            seq![(done, w)] + chunk_plan(done + w, (rest - w) as nat)
        } else {
            seq![]
        }
    }
}

/// The writes that a chunk plan stands for when `data` is stored at `addr`.
pub open spec fn plan_writes(addr: int, data: Seq<u8>, plan: Seq<(nat, nat)>) -> Seq<(int, Seq<u8>)> {
    plan.map_values(|c: (nat, nat)| (addr + c.0, data.subrange(c.0 as int, (c.0 + c.1) as int)))
}

/// The writes, in order, that `write_n` makes to store `data` at `addr`.
pub open spec fn write_n_writes(addr: int, data: Seq<u8>) -> Seq<(int, Seq<u8>)> {
    plan_writes(addr, data, chunk_plan(0, data.len()))
}

proof fn lemma_chunk_width_fits(rest: nat)
    requires
        rest > 0,
    ensures
        1 <= chunk_width(rest) <= rest,
{
}

/// The bytes `data[start..end]` as a vector of their own.
pub fn copy_range(data: &[u8], start: usize, end: usize) -> (out: Vec<u8>)
    requires
        start <= end <= data@.len(),
    ensures
        out@ == data@.subrange(start as int, end as int),
{
    let mut out: Vec<u8> = Vec::new();
    let mut i = start;
    while i < end
        invariant
            start <= i <= end <= data@.len(),
            out@ == data@.subrange(start as int, i as int),
        decreases end - i,
    {
        out.push(data[i]);
        i = i + 1;
    }
    out
}

/// The writes that `ProcMem::write_n` issues to store `data` at `addr`: it walks
/// the buffer from the front and, while `rest` bytes are left, writes the next
/// `chunk_width(rest)` of them as one value.
pub fn split_write(addr: usize, data: &[u8]) -> (ws: Vec<MemWrite>)
    requires
        data@.len() == 0 || addr + data@.len() - 1 <= usize::MAX,
    ensures
        writes_view(ws@) == write_n_writes(addr as int, data@),
{
    let n = data.len();
    let ghost plan = chunk_plan(0, n as nat);
    let mut ws: Vec<MemWrite> = Vec::new();
    let mut rest = n;
    let mut curr: usize = 0;
    while rest != 0
        invariant
            n == data@.len(),
            plan == chunk_plan(0, n as nat),
            data@.len() == 0 || addr + data@.len() - 1 <= usize::MAX,
            curr + rest == n,
            ws@.len() <= plan.len(),
            plan == plan.take(ws@.len() as int) + chunk_plan(curr as nat, rest as nat),
            forall|j: int|
                #![trigger ws@[j]]
                0 <= j < ws@.len() ==> {
                    let (off, w) = plan[j];
                    &&& ws@[j].addr == addr + off
                    &&& ws@[j].bytes@ == data@.subrange(off as int, (off + w) as int)
                },
        decreases rest,
    {
        proof {
            lemma_chunk_width_fits(rest as nat);
        }
        let size: usize = if rest % 8 == 0 {
            8
        } else if rest % 4 == 0 {
            4
        } else if rest % 2 == 0 {
            2
        } else {
            1
        };
        assert(size == chunk_width(rest as nat));
        let bytes = copy_range(data, curr, curr + size);
        let w = MemWrite { addr: addr + curr, bytes };
        proof {
            let k = ws@.len() as int;
            let tail = chunk_plan(curr as nat, rest as nat);
            assert(tail == seq![(curr as nat, size as nat)] + chunk_plan(
                (curr + size) as nat,
                (rest - size) as nat,
            ));
            assert(plan[k] == (curr as nat, size as nat));
            assert(plan.take(k + 1) == plan.take(k) + seq![(curr as nat, size as nat)]);
            assert(plan == plan.take(k + 1) + chunk_plan((curr + size) as nat, (rest - size) as nat));
        }
        ws.push(w);
        rest = rest - size;
        curr = curr + size;
    }
    proof {
        assert(chunk_plan(curr as nat, 0) == Seq::<(nat, nat)>::empty());
        assert(plan.take(ws@.len() as int) == plan);
        assert(writes_view(ws@) =~= write_n_writes(addr as int, data@));
    }
    ws
}

proof fn lemma_apply_writes_append(mem: Map<int, u8>, s1: Seq<(int, Seq<u8>)>, s2: Seq<(int, Seq<u8>)>)
    ensures
        apply_writes(mem, s1 + s2) == apply_writes(apply_writes(mem, s1), s2),
    decreases s2.len(),
{
    if s2.len() == 0 {
        assert(s1 + s2 =~= s1);
    } else {
        assert((s1 + s2).drop_last() =~= s1 + s2.drop_last());
        lemma_apply_writes_append(mem, s1, s2.drop_last());
    }
}

proof fn lemma_write_bytes_concat(mem: Map<int, u8>, a: int, s: Seq<u8>, t: Seq<u8>)
    ensures
        write_bytes(write_bytes(mem, a, s), a + s.len(), t) =~= write_bytes(mem, a, s + t),
{
}

proof fn lemma_plan_is_one_write(mem: Map<int, u8>, addr: int, data: Seq<u8>, done: nat, rest: nat)
    requires
        done + rest <= data.len(),
    ensures
        apply_writes(mem, plan_writes(addr, data, chunk_plan(done, rest))) =~= write_bytes(
            mem,
            addr + done,
            data.subrange(done as int, (done + rest) as int),
        ),
    decreases rest,
{
    if rest == 0 {
        assert(plan_writes(addr, data, chunk_plan(done, rest)) =~= Seq::<(int, Seq<u8>)>::empty());
    } else {
        lemma_chunk_width_fits(rest);
        let w = chunk_width(rest);
        let first = (addr + done, data.subrange(done as int, (done + w) as int));
        let tail = plan_writes(addr, data, chunk_plan(done + w, (rest - w) as nat));
        assert(plan_writes(addr, data, chunk_plan(done, rest)) =~= seq![first] + tail);
        lemma_apply_writes_append(mem, seq![first], tail);
        assert(seq![first].drop_last() =~= Seq::<(int, Seq<u8>)>::empty());
        assert(apply_writes(mem, seq![first].drop_last()) == mem);
        let m1 = write_bytes(mem, addr + done, data.subrange(done as int, (done + w) as int));
        assert(apply_writes(mem, seq![first]) == m1);
        lemma_plan_is_one_write(m1, addr, data, done + w, (rest - w) as nat);
        lemma_write_bytes_concat(
            mem,
            addr + done,
            data.subrange(done as int, (done + w) as int),
            data.subrange((done + w) as int, (done + rest) as int),
        );
        assert(data.subrange(done as int, (done + w) as int) + data.subrange(
            (done + w) as int,
            (done + rest) as int,
        ) =~= data.subrange(done as int, (done + rest) as int));
    }
}

/// Storing a buffer chunk by chunk, as `write_n` does, leaves memory exactly as
/// one write of the whole buffer would.
pub proof fn write_n_is_one_write(mem: Map<int, u8>, addr: int, data: Seq<u8>)
    ensures
        apply_writes(mem, write_n_writes(addr, data)) == write_bytes(mem, addr, data),
{
    lemma_plan_is_one_write(mem, addr, data, 0, data.len());
    assert(data.subrange(0, data.len() as int) =~= data);
}

} // verus!
