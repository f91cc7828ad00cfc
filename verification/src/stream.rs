//! Encodings of a body.
use vstd::prelude::*;
use vstd::string::*;
use std::io::Write;
use crate::error::{ErrorKind, ErrorView};

verus! {

/// The steps of compressing a body.
#[derive(Clone, Copy, PartialEq, Eq, Structural, Debug)]
pub enum GzipStep {
    /// Handing the body to the compressor.
    Write,
    /// Closing the compressed stream.
    Finish,
}

/// Why a body could not be compressed.
pub struct GzipFailure {
    /// The step that failed.
    pub step: GzipStep,
    /// What was said.
    pub message: String,
}

/// What compressing a body with gzip, at the best level, comes to.
pub uninterp spec fn gzip_result(data: Seq<u8>) -> Result<Seq<u8>, (GzipStep, Seq<char>)>;

/// What reading a gzip stream to its end gives, as `flate2::read::GzDecoder` does it; nothing where it
/// is none.
pub uninterp spec fn gunzipped(stream: Seq<u8>) -> Option<Seq<u8>>;

/// Whether a body was compressed, and unpacking what it was compressed to gives it back.
pub open spec fn unpacks_to(body: Result<Seq<u8>, ErrorView>, data: Seq<u8>) -> bool {
    body matches Ok(packed) && gunzipped(packed) == Some(data)
}

/// The outcome of compressing a body, by its bytes and characters.
pub open spec fn gzip_outcome(ret: Result<Vec<u8>, GzipFailure>) -> Result<
    Seq<u8>,
    (GzipStep, Seq<char>),
> {
    match ret {
        Ok(data) => Ok(data@),
        Err(failure) => Err((failure.step, failure.message@)),
    }
}

/// `flate2::write::GzEncoder`: the body as a gzip stream, compressed at the best level. The stream goes
/// to a vector, which takes every byte, and the compressor itself refuses nothing before its stream is
/// closed, so compressing succeeds. Reading the stream with `flate2::read::GzDecoder` gives the body
/// back.
#[verifier::external_body]
fn gzip_of(data: &[u8]) -> (ret: Result<Vec<u8>, GzipFailure>)
    ensures
        gzip_outcome(ret) == gzip_result(data@),
        ret is Ok,
        ret matches Ok(packed) ==> gunzipped(packed@) == Some(data@),
{
    let mut encoder = flate2::write::GzEncoder::new(Vec::new(), flate2::Compression::best());
    let written = encoder.write_all(data);
    written.map_err(|err| GzipFailure { step: GzipStep::Write, message: err.to_string() })?;
    let finished = encoder.finish();
    finished.map_err(|err| GzipFailure { step: GzipStep::Finish, message: err.to_string() })
}

/// The outcome of a step that gives bytes, by its bytes and characters.
pub open spec fn bytes_outcome(ret: Result<Vec<u8>, ErrorKind>) -> Result<Seq<u8>, ErrorView> {
    match ret {
        Ok(data) => Ok(data@),
        Err(err) => Err(err@),
    }
}

/// What was read of a body, by its bytes and characters.
pub open spec fn read_outcome(src: Result<Vec<u8>, String>) -> Result<Seq<u8>, Seq<char>> {
    match src {
        Ok(data) => Ok(data@),
        Err(err) => Err(err@),
    }
}

/// A compressed body, given what compressing comes to.
pub open spec fn encoded_with(outcome: Result<Seq<u8>, (GzipStep, Seq<char>)>) -> Result<
    Seq<u8>,
    ErrorView,
> {
    match outcome {
        Ok(data) => Ok(data),
        Err((step, err)) => match step {
            GzipStep::Write => Err(ErrorView::Operate("gzip stream write data failed "@ + err)),
            GzipStep::Finish => Err(ErrorView::Operate("finished gzip stream failed "@ + err)),
        },
    }
}

/// A compressed body, given what was read of it.
pub open spec fn encoded(src: Result<Seq<u8>, Seq<char>>) -> Result<Seq<u8>, ErrorView> {
    match src {
        Ok(data) => encoded_with(gzip_result(data)),
        Err(err) => Err(
            ErrorView::Operate("read source stream when build gzip stream failed "@ + err),
        ),
    }
}

/// A compressed body, given what compressing came to.
pub fn finish_encoding(ret: Result<Vec<u8>, GzipFailure>) -> (body: Result<Vec<u8>, ErrorKind>)
    ensures
        bytes_outcome(body) == encoded_with(gzip_outcome(ret)),
{
    match ret {
        Ok(data) => Ok(data),
        Err(failure) => {
            let mut m: String = match failure.step {
                GzipStep::Write => "gzip stream write data failed ".to_owned(),
                GzipStep::Finish => "finished gzip stream failed ".to_owned(),
            };
            m.append(failure.message.as_str());
            Err(ErrorKind::OperateError(m))
        },
    }
}

/// Compresses a body with gzip, given what was read of it. A body that was read in full is compressed,
/// and unpacking the result gives what was read.
pub fn build_gzip_encoder_stream(src: Result<Vec<u8>, String>) -> (body: Result<Vec<u8>, ErrorKind>)
    ensures
        bytes_outcome(body) == encoded(read_outcome(src)),
        src matches Ok(data) ==> unpacks_to(bytes_outcome(body), data@),
        src is Err ==> body matches Err(ErrorKind::OperateError(_)),
{
    match src {
        Ok(data) => finish_encoding(gzip_of(data.as_slice())),
        Err(err) => {
            let mut m: String = "read source stream when build gzip stream failed ".to_owned();
            m.append(err.as_str());
            Err(ErrorKind::OperateError(m))
        },
    }
}

/// A number in lower-case hexadecimal.
pub open spec fn hex_number(n: nat) -> Seq<char>
    decreases n,
{
    if n < 16 {
        seq![crate::digest::hex_digit(n)]
    } else {
        hex_number(n / 16).push(crate::digest::hex_digit(n % 16))
    }
}

/// A buffer for one chunk of a body.
pub struct ChunkWriter {
    /// The text between parts.
    pub boundary: String,
    /// The buffer.
    pub data: Vec<u8>,
}

impl ChunkWriter {
    /// Puts a chunk, and the end of its line, in the buffer. The chunk has to be as long as what is
    /// in the buffer already together with the line that gives the chunk's length.
    pub fn write_chunk(&mut self, data: &[u8])
        requires
            old(self).data@.len() + hex_number(data@.len()).len() + 2 == data@.len(),
        ensures
            final(self).data@ == data@ + seq![13u8, 10u8],
            final(self).boundary == old(self).boundary,
    {
        let mut line: Vec<u8> = Vec::new();
        line.extend_from_slice(data);
        line.push(13);
        line.push(10);
        assert(line@ =~= data@ + seq![13u8, 10u8]);
        self.data = line;
    }

    /// Puts the last chunk, which is empty, in the buffer. It has to be as long as what is in the
    /// buffer already.
    pub fn finalize(&mut self) -> (data: &Vec<u8>)
        requires
            old(self).data@.len() == 5,
        ensures
            final(self).data@ == seq![48u8, 13u8, 10u8, 13u8, 10u8],
            data@ == final(self).data@,
            final(self).boundary == old(self).boundary,
    {
        let mut last: Vec<u8> = Vec::new();
        last.push(48);
        last.push(13);
        last.push(10);
        last.push(13);
        last.push(10);
        assert(last@ =~= seq![48u8, 13u8, 10u8, 13u8, 10u8]);
        self.data = last;
        &self.data
    }
}

/// What compressing a body gives is what is sent, byte by byte; a body that could not be read, or not be
/// compressed, is an operation that failed, and the message says at which step and why.
pub proof fn law_compressing_is_told(data: Seq<u8>, step: GzipStep, why: Seq<char>)
    ensures
        encoded_with(Ok(data)) == Ok::<Seq<u8>, ErrorView>(data),
        encoded_with(Err((step, why))) == Err::<Seq<u8>, ErrorView>(
            ErrorView::Operate(
                match step {
                    GzipStep::Write => "gzip stream write data failed "@ + why,
                    GzipStep::Finish => "finished gzip stream failed "@ + why,
                },
            ),
        ),
        encoded(Err(why)) == Err::<Seq<u8>, ErrorView>(
            ErrorView::Operate("read source stream when build gzip stream failed "@ + why),
        ),
        encoded(Ok(data)) == encoded_with(gzip_result(data)),
{
}

/// A number in hexadecimal has one digit more than its sixteenth, and ends with the digit that is left.
pub proof fn law_hex_number(n: nat, d: nat)
    requires
        d < 16,
        n > 0,
    ensures
        hex_number(d) == seq![crate::digest::hex_digit(d)],
        hex_number(16 * n + d) == hex_number(n).push(crate::digest::hex_digit(d)),
{
    assert((16 * n + d) / 16 == n && (16 * n + d) % 16 == d);
}

} // verus!
