use vstd::prelude::*;

verus! {

/// Size of the read buffer: input is copied in chunks of at most this many
/// bytes. Chunking is invisible in the output: every destination receives
/// the plain concatenation of the chunks.
pub const CHUNK_SIZE: usize = 4096;

/// The bytes of `chunks`, in order, as one stream.
pub open spec fn concat_chunks(chunks: Seq<Seq<u8>>) -> Seq<u8>
    decreases chunks.len(),
{
    if chunks.len() == 0 {
        Seq::empty()
    } else {
        concat_chunks(chunks.drop_last()) + chunks.last()
    }
}

/// The bytes every destination of the copy has received so far: standard
/// output, and one entry per open output file, in open order. Duplicate
/// paths get one entry each — two independent writers.
pub struct Destinations {
    pub stdout: Vec<u8>,
    pub files: Vec<Vec<u8>>,
}

/// Append the bytes of `src` to `dst`.
fn append_bytes(dst: &mut Vec<u8>, src: &Vec<u8>)
    ensures
        final(dst)@ == old(dst)@ + src@,
{
    let mut i: usize = 0;
    while i < src.len()
        invariant
            i <= src@.len(),
            dst@ == old(dst)@ + src@.subrange(0, i as int),
        decreases src@.len() - i,
    {
        dst.push(src[i]);
        proof {
            assert(old(dst)@ + src@.subrange(0, i as int) + seq![src@[i as int]] =~= old(dst)@
                + src@.subrange(0, i + 1));
        }
        i += 1;
    }
    proof {
        assert(old(dst)@ + src@.subrange(0, src@.len() as int) =~= old(dst)@ + src@);
    }
}

/// The first `n` bytes of the read buffer: the bytes actually read in one
/// iteration of the copy loop.
pub fn chunk_prefix(buf: &Vec<u8>, n: usize) -> (c: Vec<u8>)
    requires
        n <= buf@.len(),
    ensures
        c@ == buf@.subrange(0, n as int),
{
    let mut c: Vec<u8> = Vec::new();
    let mut i: usize = 0;
    while i < n
        invariant
            i <= n <= buf@.len(),
            c@ == buf@.subrange(0, i as int),
        decreases n - i,
    {
        c.push(buf[i]);
        proof {
            assert(buf@.subrange(0, i as int).push(buf@[i as int]) =~= buf@.subrange(0, i + 1));
        }
        i += 1;
    }
    c
}

/// A mutable borrow of one file entry.
fn file_entry_mut(files: &mut Vec<Vec<u8>>, i: usize) -> (entry: &mut Vec<u8>)
    requires
        i < old(files).len(),
    ensures
        *entry == old(files)@[i as int],
        final(files)@ == old(files)@.update(i as int, *final(entry)),
{
    &mut files[i]
}

impl Destinations {
    /// Fan one chunk out to every destination: standard output first, then
    /// each file in open order. Every destination receives exactly the
    /// bytes of the chunk, appended after what it already holds.
    pub fn write_chunk(&mut self, chunk: &Vec<u8>)
        ensures
            final(self).stdout@ == old(self).stdout@ + chunk@,
            final(self).files@.len() == old(self).files@.len(),
            forall|j: int|
                0 <= j < old(self).files@.len() ==> final(self).files@[j]@ == old(
                    self,
                ).files@[j]@ + chunk@,
    {
        append_bytes(&mut self.stdout, chunk);
        let mut i: usize = 0;
        while i < self.files.len()
            invariant
                i <= self.files@.len(),
                self.stdout@ == old(self).stdout@ + chunk@,
                self.files@.len() == old(self).files@.len(),
                forall|j: int|
                    0 <= j < i ==> self.files@[j]@ == old(self).files@[j]@ + chunk@,
                forall|j: int|
                    i <= j < self.files@.len() ==> self.files@[j] == old(self).files@[j],
            decreases self.files@.len() - i,
        {
            let entry = file_entry_mut(&mut self.files, i);
            append_bytes(entry, chunk);
            i += 1;
        }
    }
}

/// Run the whole copy: fan every chunk out to every destination, in order.
/// For each chunk, standard output is written first, then each file in
/// open order; a chunk is fully written everywhere before the next one.
/// Every destination ends up with exactly the concatenation of the chunks
/// appended after what it already held — the chunk boundaries leave no
/// trace.
pub fn tee(dest: &mut Destinations, chunks: &Vec<Vec<u8>>)
    ensures
        final(dest).stdout@ == old(dest).stdout@ + concat_chunks(chunks.deep_view()),
        final(dest).files@.len() == old(dest).files@.len(),
        forall|j: int|
            0 <= j < old(dest).files@.len() ==> final(dest).files@[j]@ == old(
                dest,
            ).files@[j]@ + concat_chunks(chunks.deep_view()),
{
    let ghost cs = chunks.deep_view();
    let mut k: usize = 0;
    while k < chunks.len()
        invariant
            k <= chunks@.len(),
            cs == chunks.deep_view(),
            cs.len() == chunks@.len(),
            dest.stdout@ == old(dest).stdout@ + concat_chunks(cs.subrange(0, k as int)),
            dest.files@.len() == old(dest).files@.len(),
            forall|j: int|
                0 <= j < dest.files@.len() ==> dest.files@[j]@ == old(
                    dest,
                ).files@[j]@ + concat_chunks(cs.subrange(0, k as int)),
        decreases chunks@.len() - k,
    {
        let chunk = &chunks[k];
        proof {
            assert(cs[k as int] =~= chunks@[k as int]@);
            assert(cs.subrange(0, k + 1).drop_last() =~= cs.subrange(0, k as int));
            assert(cs.subrange(0, k + 1).last() == cs[k as int]);
        }
        dest.write_chunk(chunk);
        proof {
            assert(dest.stdout@ =~= old(dest).stdout@ + concat_chunks(cs.subrange(0, k + 1)));
            assert forall|j: int|
                0 <= j < dest.files@.len() implies dest.files@[j]@ == old(
                dest,
            ).files@[j]@ + concat_chunks(cs.subrange(0, k + 1)) by {
                assert(dest.files@[j]@ =~= old(dest).files@[j]@ + concat_chunks(
                    cs.subrange(0, k + 1),
                ));
            }
        }
        k += 1;
    }
    proof {
        assert(cs.subrange(0, cs.len() as int) =~= cs);
    }
}

/// The content a destination file holds immediately after opening, fixed
/// at open time: in append mode the prior content stays and writes go
/// after it; in truncate mode the prior content is discarded at once.
pub open spec fn opened_content(prior: Seq<u8>, append: bool) -> Seq<u8> {
    if append {
        prior
    } else {
        Seq::empty()
    }
}

/// Model of opening every output file in order: each entry of the result
/// is what the corresponding file holds right after opening, before any
/// data is written to it.
pub fn open_contents(priors: &Vec<Vec<u8>>, append: bool) -> (opened: Vec<Vec<u8>>)
    ensures
        opened@.len() == priors@.len(),
        forall|j: int|
            0 <= j < priors@.len() ==> opened@[j]@ == opened_content(priors@[j]@, append),
{
    let mut opened: Vec<Vec<u8>> = Vec::new();
    let mut i: usize = 0;
    while i < priors.len()
        invariant
            i <= priors@.len(),
            opened@.len() == i,
            forall|j: int|
                0 <= j < i ==> opened@[j]@ == opened_content(priors@[j]@, append),
        decreases priors@.len() - i,
    {
        let mut f: Vec<u8> = Vec::new();
        if append {
            append_bytes(&mut f, &priors[i]);
            proof {
                assert(f@ =~= priors@[i as int]@);
            }
        }
        opened.push(f);
        i += 1;
    }
    opened
}

/// `chunk`, written `writers` times in a row.
pub open spec fn repeated_chunk(chunk: Seq<u8>, writers: nat) -> Seq<u8>
    decreases writers,
{
    if writers == 0 {
        Seq::empty()
    } else {
        repeated_chunk(chunk, (writers - 1) as nat) + chunk
    }
}

/// One underlying file that several independent handles opened in append
/// mode: every write lands at the current end of the file, whichever
/// handle made it. Fanning one chunk out to all `writers` handles in
/// order therefore appends the chunk `writers` times in a row.
pub fn append_fan_out(file: &mut Vec<u8>, chunk: &Vec<u8>, writers: usize)
    ensures
        final(file)@ == old(file)@ + repeated_chunk(chunk@, writers as nat),
{
    proof {
        assert(old(file)@ + repeated_chunk(chunk@, 0nat) =~= old(file)@);
    }
    let mut w: usize = 0;
    while w < writers
        invariant
            w <= writers,
            file@ == old(file)@ + repeated_chunk(chunk@, w as nat),
        decreases writers - w,
    {
        append_bytes(file, chunk);
        proof {
            assert(old(file)@ + repeated_chunk(chunk@, w as nat) + chunk@ =~= old(file)@
                + repeated_chunk(chunk@, (w + 1) as nat));
        }
        w += 1;
    }
}

/// However the input was cut into chunks, every destination sees the same
/// bytes: what a copy appends depends only on the concatenation of the
/// chunks, never on where the chunk boundaries fell.
pub proof fn lemma_chunking_invisible(a: Seq<Seq<u8>>, b: Seq<Seq<u8>>, start: Seq<u8>)
    requires
        concat_chunks(a) == concat_chunks(b),
    ensures
        start + concat_chunks(a) == start + concat_chunks(b),
{
}

/// Bytes written to standard output equal the bytes read from the input:
/// a copy that starts with nothing written yet ends with exactly the
/// input stream, untransformed.
pub proof fn lemma_stdout_equals_input(chunks: Seq<Seq<u8>>)
    ensures
        Seq::<u8>::empty() + concat_chunks(chunks) == concat_chunks(chunks),
{
    assert(Seq::<u8>::empty() + concat_chunks(chunks) =~= concat_chunks(chunks));
}

/// Final content of an output file after a full copy: the whole input
/// stream appended to the prior content in append mode; the input stream
/// alone in truncate mode.
pub proof fn lemma_final_file_content(prior: Seq<u8>, append: bool, input: Seq<u8>)
    ensures
        append ==> opened_content(prior, append) + input == prior + input,
        !append ==> opened_content(prior, append) + input == input,
{
    if !append {
        assert(opened_content(prior, append) + input =~= input);
    }
}

/// Duplicate file paths give two independent writers on one underlying
/// file. In append mode, a single-chunk input therefore lands twice in a
/// row after the prior content.
pub proof fn lemma_duplicate_append_writers(prior: Seq<u8>, input: Seq<u8>)
    ensures
        prior + repeated_chunk(input, 2) == prior + input + input,
{
    assert(repeated_chunk(input, 2) == repeated_chunk(input, 1) + input);
    assert(repeated_chunk(input, 1) == repeated_chunk(input, 0) + input);
    assert(repeated_chunk(input, 0nat) + input =~= input);
    assert(prior + (input + input) =~= prior + input + input);
}

} // verus!
