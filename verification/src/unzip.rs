use vstd::prelude::*;

pub mod reader;
pub mod writer;

verus! {

/// The pieces of at most `size` bytes that a file's data is written in, in order.
pub open spec fn chunks_spec(data: Seq<u8>, size: nat) -> Seq<Seq<u8>>
    decreases data.len(),
{
    if data.len() == 0 || size == 0 {
        Seq::empty()
    } else if data.len() <= size {
        seq![data]
    } else {
        seq![data.take(size as int)] + chunks_spec(data.skip(size as int), size)
    }
}

/// Cuts a file's data into pieces of `size` bytes, the last one shorter where the data ends,
/// as `slice::chunks` does.
pub fn chunks(data: &[u8], size: usize) -> (out: Vec<Vec<u8>>)
    requires
        size > 0,
    ensures
        out.deep_view() == chunks_spec(data@, size as nat),
{
    let mut out: Vec<Vec<u8>> = Vec::new();
    let mut start: usize = 0;
    assert(data@.skip(0) =~= data@);
    while start < data.len()
        invariant
            size > 0,
            start <= data.len(),
            chunks_spec(data@, size as nat) == out.deep_view() + chunks_spec(data@.skip(start as int), size as nat),
        decreases data.len() - start,
    {
        let ghost rest = data@.skip(start as int);
        let end: usize = if data.len() - start <= size { data.len() } else { start + size };
        let mut piece: Vec<u8> = Vec::new();
        let mut i: usize = start;
        while i < end
            invariant
                start <= i <= end <= data.len(),
                piece@ == data@.subrange(start as int, i as int),
            decreases end - i,
        {
            piece.push(data[i]);
            assert(data@.subrange(start as int, i + 1) =~= data@.subrange(start as int, i as int).push(data@[i as int]));
            i = i + 1;
        }
        let ghost before = out.deep_view();
        assert(piece.deep_view() =~= data@.subrange(start as int, end as int));
        out.push(piece);
        proof {
            assert(out.deep_view() =~= before.push(data@.subrange(start as int, end as int)));
            if rest.len() <= size {
                assert(data@.subrange(start as int, end as int) =~= rest);
                assert(data@.skip(end as int) =~= Seq::<u8>::empty());
                assert(chunks_spec(rest, size as nat) == seq![rest]);
            } else {
                assert(data@.subrange(start as int, end as int) =~= rest.take(size as int));
                assert(rest.skip(size as int) =~= data@.skip(end as int));
            }
            assert(before + chunks_spec(rest, size as nat) =~= out.deep_view() + chunks_spec(data@.skip(end as int), size as nat));
        }
        start = end;
    }
    assert(data@.skip(data.len() as int) =~= Seq::<u8>::empty());
    assert(out.deep_view() + Seq::<Seq<u8>>::empty() =~= out.deep_view());
    out
}


/// The pieces of a file's data put back together are the data, and each piece holds between
/// one and `size` bytes.
pub proof fn lemma_chunks_rebuild(data: Seq<u8>, size: nat)
    requires
        size > 0,
    ensures
        chunks_spec(data, size).flatten() == data,
        forall|i: int| 0 <= i < chunks_spec(data, size).len() ==> 0 < #[trigger] chunks_spec(data, size)[i].len() <= size,
    decreases data.len(),
{
    let c = chunks_spec(data, size);
    if data.len() == 0 {
        assert(data =~= Seq::<u8>::empty());
    } else if data.len() <= size {
        assert(c.flatten() == c.first() + c.drop_first().flatten());
        assert(c.drop_first() =~= Seq::<Seq<u8>>::empty());
        assert(c.first() == data);
        assert(data + Seq::<u8>::empty() =~= data);
    } else {
        let rest = data.skip(size as int);
        lemma_chunks_rebuild(rest, size);
        assert(c.flatten() == c.first() + c.drop_first().flatten());
        assert(c.first() == data.take(size as int));
        assert(c.drop_first() =~= chunks_spec(rest, size));
        assert(data.take(size as int) + rest =~= data);
        assert forall|i: int| 0 <= i < c.len() implies 0 < #[trigger] c[i].len() <= size by {
            if i > 0 {
                assert(c[i] == chunks_spec(rest, size)[i - 1]);
            }
        }
    }
}

/// One packet that the unzip operation sends for a completed archive entry.
pub enum UnzipPacket {
    /// The entry's file name, on the `filename` output.
    Filename(String),
    /// The entry's data, whole, on the `contents` output.
    Contents(Vec<u8>),
}

/// The packets for the entries that the archive reader completed, in the archive's order:
/// for each entry its file name, then its data.
pub fn unzip_packets(entries: &Vec<(String, Vec<u8>)>) -> (out: Vec<UnzipPacket>)
    ensures
        out.len() == 2 * entries.len(),
        forall|i: int| 0 <= i < entries.len() ==> (#[trigger] out@[2 * i] matches UnzipPacket::Filename(n)
            && n@ == entries@[i].0@),
        forall|i: int| 0 <= i < entries.len() ==> (#[trigger] out@[2 * i + 1] matches UnzipPacket::Contents(d)
            && d@ == entries@[i].1@),
{
    let mut out: Vec<UnzipPacket> = Vec::new();
    let mut i: usize = 0;
    while i < entries.len()
        invariant
            i <= entries.len(),
            out.len() == 2 * i,
            forall|k: int| 0 <= k < i ==> (#[trigger] out@[2 * k] matches UnzipPacket::Filename(n)
                && n@ == entries@[k].0@),
            forall|k: int| 0 <= k < i ==> (#[trigger] out@[2 * k + 1] matches UnzipPacket::Contents(d)
                && d@ == entries@[k].1@),
        decreases entries.len() - i,
    {
        let name = entries[i].0.clone();
        let data = entries[i].1.clone();
        out.push(UnzipPacket::Filename(name));
        out.push(UnzipPacket::Contents(data));
        assert(out@[2 * (i as int)] matches UnzipPacket::Filename(n) && n@ == entries@[i as int].0@);
        i = i + 1;
    }
    out
}

/// The files that the unzip task writes for the entries that the archive reader completed, in
/// the archive's order: each entry's name as the destination, its data in pieces of 1024
/// bytes.
pub fn file_writes(entries: &Vec<(String, Vec<u8>)>) -> (out: Vec<(String, Vec<Vec<u8>>)>)
    ensures
        out.len() == entries.len(),
        forall|i: int| 0 <= i < entries.len() ==> (#[trigger] out@[i]).0@ == entries@[i].0@
            && out@[i].1.deep_view() == chunks_spec(entries@[i].1@, 1024),
{
    let mut out: Vec<(String, Vec<Vec<u8>>)> = Vec::new();
    let mut i: usize = 0;
    while i < entries.len()
        invariant
            i <= entries.len(),
            out.len() == i,
            forall|k: int| 0 <= k < i ==> (#[trigger] out@[k]).0@ == entries@[k].0@
                && out@[k].1.deep_view() == chunks_spec(entries@[k].1@, 1024),
        decreases entries.len() - i,
    {
        let name = entries[i].0.clone();
        let pieces = chunks(entries[i].1.as_slice(), 1024);
        out.push((name, pieces));
        i = i + 1;
    }
    out
}

} // verus!
