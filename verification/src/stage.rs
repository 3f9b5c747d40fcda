//! The stage between the body of a response and the file: it hands the bytes
//! on as they are, or decompresses them piece by piece.

use async_compression::tokio::write::GzipDecoder;
use futures::FutureExt;
use tokio::io::AsyncWriteExt;
use vstd::prelude::*;
use vstd::slice::slice_to_vec;

verus! {

/// The gzip decoder of `async_compression`, which writes what it decompresses
/// to the writer `W` that it holds.
#[verifier::external_type_specification]
#[verifier::external_body]
#[verifier::reject_recursive_types(W)]
pub struct ExGzipDecoder<W>(GzipDecoder<W>);

/// The compressed bytes that a decoder has taken in since it was made.
pub uninterp spec fn decoder_consumed(decoder: GzipDecoder<Vec<u8>>) -> Seq<u8>;

/// The decompressed bytes that were taken out of a decoder's vector since the
/// decoder was made.
pub uninterp spec fn decoder_delivered(decoder: GzipDecoder<Vec<u8>>) -> Seq<u8>;

/// No call on the decoder has failed since it was made.
pub uninterp spec fn decoder_sound(decoder: GzipDecoder<Vec<u8>>) -> bool;

/// What the gzip decoder of `async_compression` makes of `data` where `data`
/// is one complete gzip stream that the decoder accepts, and `None` where it
/// is not.
pub uninterp spec fn gunzip(data: Seq<u8>) -> Option<Seq<u8>>;

/// No bytes that begin with `front` are a gzip stream that the decoder
/// accepts.
pub open spec fn no_gzip_begins(front: Seq<u8>) -> bool {
    forall|rest: Seq<u8>| (#[trigger] gunzip(front + rest)) is None
}

/// `GzipDecoder::new` around an empty vector, which receives what the decoder
/// decompresses. The new decoder has taken nothing in, nothing was taken out
/// of it, and nothing has failed on it.
#[verifier::external_body]
fn decoder_new() -> (decoder: GzipDecoder<Vec<u8>>)
    ensures
        decoder_consumed(decoder) == Seq::<u8>::empty(),
        decoder_delivered(decoder) == Seq::<u8>::empty(),
        decoder_sound(decoder),
{
    GzipDecoder::new(Vec::new())
}

/// Writes all of `bytes` into the decoder, with `write_all` of tokio's
/// `AsyncWriteExt`, polled once: the decoder writes to a vector and so never
/// waits. Where that succeeds the decoder has taken `bytes` in. It fails on
/// a header, on compressed data or on a check sum that it cannot accept, and
/// on bytes that come after the end of the stream: so, on a decoder on which
/// nothing has failed before, where it fails, nothing that begins with the
/// bytes taken in so far and `bytes` is a gzip stream that the decoder accepts.
#[verifier::external_body]
fn decoder_write(decoder: &mut GzipDecoder<Vec<u8>>, bytes: &[u8]) -> (r: Result<(), String>)
    ensures
        r is Ok ==> decoder_consumed(*final(decoder)) == decoder_consumed(*old(decoder)) + bytes@
            && decoder_delivered(*final(decoder)) == decoder_delivered(*old(decoder))
            && decoder_sound(*final(decoder)) == decoder_sound(*old(decoder)),
        r is Err && decoder_sound(*old(decoder)) ==> no_gzip_begins(
            decoder_consumed(*old(decoder)) + bytes@,
        ),
{
    match decoder.write_all(bytes).now_or_never() {
        Some(Ok(())) => Ok(()),
        Some(Err(e)) => Err(e.to_string()),
        None => Err(String::new()),
    }
}

/// Has the decoder hand what it has decompressed so far to its vector, with
/// `flush` of tokio's `AsyncWriteExt`, polled once, and takes the bytes out
/// of the vector, which `get_mut` reaches. The bytes taken out are the
/// result. The flush fails only where the decoder finds the compressed data
/// that it holds broken.
#[verifier::external_body]
fn decoder_drain(decoder: &mut GzipDecoder<Vec<u8>>) -> (r: Result<Vec<u8>, String>)
    ensures
        r matches Ok(out) ==> decoder_consumed(*final(decoder)) == decoder_consumed(*old(decoder))
            && decoder_delivered(*final(decoder)) == decoder_delivered(*old(decoder)) + out@
            && decoder_sound(*final(decoder)) == decoder_sound(*old(decoder)),
        r is Err && decoder_sound(*old(decoder)) ==> no_gzip_begins(
            decoder_consumed(*old(decoder)),
        ),
{
    match decoder.flush().now_or_never() {
        Some(Ok(())) => Ok(std::mem::take(decoder.get_mut())),
        Some(Err(e)) => Err(e.to_string()),
        None => Err(String::new()),
    }
}

/// Tells the decoder that its input is over, with `shutdown` of tokio's
/// `AsyncWriteExt`, polled once, and takes the last bytes out of its vector.
/// The decoder succeeds only when it has seen a whole gzip stream, with the
/// check sum and the length at its end as they should be, and has written
/// out all that the stream holds. So where this succeeds, all that was taken
/// out of the decoder is what the decoder makes of all that it took in, and
/// where it fails on a decoder on which nothing has failed before, what the
/// decoder took in is no gzip stream that it accepts: that is the meaning of
/// the name `gunzip`.
#[verifier::external_body]
fn decoder_close(decoder: &mut GzipDecoder<Vec<u8>>) -> (r: Result<Vec<u8>, String>)
    ensures
        r matches Ok(out) ==> decoder_consumed(*final(decoder)) == decoder_consumed(*old(decoder))
            && decoder_delivered(*final(decoder)) == decoder_delivered(*old(decoder)) + out@
            && decoder_sound(*final(decoder)) == decoder_sound(*old(decoder)) && gunzip(
            decoder_consumed(*old(decoder)),
        ) == Some(decoder_delivered(*final(decoder))),
        r is Err && decoder_sound(*old(decoder)) ==> gunzip(decoder_consumed(*old(decoder)))
            is None,
{
    match decoder.shutdown().now_or_never() {
        Some(Ok(())) => Ok(std::mem::take(decoder.get_mut())),
        Some(Err(e)) => Err(e.to_string()),
        None => Err(String::new()),
    }
}

/// What a file holds when the whole of `body` has gone through a stage: the
/// body itself, or what the decoder makes of it; `None` where the body is no
/// gzip stream.
pub open spec fn expected_file(decompress: bool, body: Seq<u8>) -> Option<Seq<u8>> {
    if decompress {
        gunzip(body)
    } else {
        Some(body)
    }
}

/// The stage of one download. It holds no more of the file than the piece
/// that it was last given.
pub struct Stage {
    decoder: Option<GzipDecoder<Vec<u8>>>,
    passed: Ghost<Seq<u8>>,
}

impl Stage {
    /// The stage decompresses what it is given.
    pub closed spec fn decompresses(&self) -> bool {
        self.decoder is Some
    }

    /// The bytes that the stage was given, in order.
    pub closed spec fn fed(&self) -> Seq<u8> {
        match self.decoder {
            Some(decoder) => decoder_consumed(decoder),
            None => self.passed@,
        }
    }

    /// The bytes that the stage has handed out for the file, in order.
    pub closed spec fn handed(&self) -> Seq<u8> {
        match self.decoder {
            Some(decoder) => decoder_delivered(decoder),
            None => self.passed@,
        }
    }

    /// Nothing has failed on the stage since it was made.
    pub closed spec fn intact(&self) -> bool {
        match self.decoder {
            Some(decoder) => decoder_sound(decoder),
            None => true,
        }
    }

    /// A stage that decompresses, or one that hands the bytes on as they are.
    pub fn new(decompress: bool) -> (stage: Stage)
        ensures
            stage.decompresses() == decompress,
            stage.fed() == Seq::<u8>::empty(),
            stage.handed() == Seq::<u8>::empty(),
            stage.intact(),
    {
        if decompress {
            Stage { decoder: Some(decoder_new()), passed: Ghost(Seq::empty()) }
        } else {
            Stage { decoder: None, passed: Ghost(Seq::empty()) }
        }
    }

    /// Takes the next piece of the body and gives the bytes that are ready
    /// for the file. A stage that does not decompress gives the piece itself.
    /// One that does gives what the decoder has decompressed since the last
    /// piece, or the decoder's words where it cannot read the data. A stage
    /// on which nothing has failed fails only where the body cannot become
    /// a gzip stream any more, whatever follows.
    pub fn write(&mut self, bytes: &[u8]) -> (r: Result<Vec<u8>, String>)
        ensures
            final(self).decompresses() == old(self).decompresses(),
            r matches Ok(out) ==> final(self).fed() == old(self).fed() + bytes@
                && final(self).handed() == old(self).handed() + out@ && final(self).intact()
                == old(self).intact(),
            !old(self).decompresses() ==> (r matches Ok(out) && out@ == bytes@),
            r is Err && old(self).intact() ==> old(self).decompresses() && no_gzip_begins(
                old(self).fed() + bytes@,
            ),
    {
        if self.decoder.is_none() {
            self.passed = Ghost(self.passed@ + bytes@);
            return Ok(slice_to_vec(bytes));
        }
        match &mut self.decoder {
            None => Ok(Vec::new()),
            Some(decoder) => {
                match decoder_write(decoder, bytes) {
                    Ok(()) => decoder_drain(decoder),
                    Err(words) => Err(words),
                }
            },
        }
    }

    /// Ends the body and gives the last bytes for the file. A stage that does
    /// not decompress gives none. One that does gives what the decoder still
    /// held, or the decoder's words where the stream is not complete. Where
    /// this succeeds, the bytes handed out are what the file is to hold of
    /// the bytes given.
    pub fn finish(&mut self) -> (r: Result<Vec<u8>, String>)
        ensures
            final(self).decompresses() == old(self).decompresses(),
            r matches Ok(out) ==> final(self).fed() == old(self).fed() && final(self).handed()
                == old(self).handed() + out@ && final(self).intact() == old(self).intact()
                && expected_file(old(self).decompresses(), final(self).fed()) == Some(
                final(self).handed(),
            ),
            !old(self).decompresses() ==> (r matches Ok(out) && out@ == Seq::<u8>::empty()),
            r is Err && old(self).intact() ==> expected_file(
                old(self).decompresses(),
                old(self).fed(),
            ) is None,
    {
        match &mut self.decoder {
            None => {
                let out: Vec<u8> = Vec::new();
                assert(self.passed@ + out@ =~= self.passed@);
                Ok(out)
            },
            Some(decoder) => decoder_close(decoder),
        }
    }

    /// The stage decompresses what it is given.
    pub fn is_decompressing(&self) -> (yes: bool)
        ensures
            yes == self.decompresses(),
    {
        self.decoder.is_some()
    }
}

/// The pieces of `pieces` one after another.
pub open spec fn joined(pieces: Seq<Seq<u8>>) -> Seq<u8>
    decreases pieces.len(),
{
    if pieces.len() == 0 {
        Seq::empty()
    } else {
        joined(pieces.drop_last()) + pieces.last()
    }
}

/// The pieces one after another are the first `k` of them one after
/// another, and then the others.
pub proof fn lemma_joined_split(pieces: Seq<Seq<u8>>, k: int)
    requires
        0 <= k <= pieces.len(),
    ensures
        joined(pieces) == joined(pieces.take(k)) + joined(pieces.skip(k)),
    decreases pieces.len(),
{
    if k == pieces.len() {
        assert(pieces.take(k) =~= pieces);
        assert(pieces.skip(k) =~= Seq::<Seq<u8>>::empty());
        assert(joined(pieces) + Seq::<u8>::empty() =~= joined(pieces));
    } else {
        let front = pieces.drop_last();
        lemma_joined_split(front, k);
        assert(front.take(k) =~= pieces.take(k));
        assert(pieces.skip(k).drop_last() =~= front.skip(k));
        assert(pieces.skip(k).last() == pieces.last());
        assert(joined(pieces) =~= joined(pieces.take(k)) + joined(pieces.skip(k)));
    }
}

/// Runs a whole body, given in pieces, through a stage of its own. The
/// result depends on the body alone, however it is cut into pieces: a stage
/// that does not decompress gives the body itself; one that does gives what
/// the decoder makes of the whole body, and fails exactly where the body is
/// no gzip stream that the decoder accepts.
pub fn run_stage(decompress: bool, pieces: &Vec<Vec<u8>>) -> (r: Result<Vec<u8>, String>)
    ensures
        match r {
            Ok(file) => expected_file(decompress, joined(pieces.deep_view())) == Some(file@),
            Err(_) => expected_file(decompress, joined(pieces.deep_view())) is None,
        },
{
    let ghost input = pieces.deep_view();
    let mut stage = Stage::new(decompress);
    let mut file: Vec<u8> = Vec::new();
    let mut i: usize = 0;
    assert(input.take(0) =~= Seq::<Seq<u8>>::empty());
    while i < pieces.len()
        invariant
            i <= pieces.len(),
            input == pieces.deep_view(),
            stage.decompresses() == decompress,
            stage.intact(),
            stage.fed() == joined(input.take(i as int)),
            stage.handed() == file@,
        decreases pieces.len() - i,
    {
        assert(input[i as int] == pieces@[i as int]@);
        assert(input.take(i + 1).drop_last() =~= input.take(i as int));
        assert(input.take(i + 1).last() == input[i as int]);
        match stage.write(pieces[i].as_slice()) {
            Ok(mut out) => {
                file.append(&mut out);
            },
            Err(words) => {
                proof {
                    lemma_joined_split(input, i + 1);
                    assert(gunzip(joined(input.take(i + 1)) + joined(input.skip(i + 1)))
                        is None);
                }
                return Err(words);
            },
        }
        i += 1;
    }
    assert(input.take(i as int) =~= input);
    match stage.finish() {
        Ok(mut out) => {
            file.append(&mut out);
            Ok(file)
        },
        Err(words) => Err(words),
    }
}

} // verus!
