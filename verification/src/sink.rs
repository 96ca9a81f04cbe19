//! Output: the byte sink records are written through, and the progress
//! channel observations are reported on.
//!
//! The pipeline sees a sink only as an append-only byte stream.  The
//! embedding program binds one to the destination file — buffered, and
//! gzip-compressing when configured — while [`MemSink`] keeps the
//! stream in memory for tests and for callers that want the bytes back.

use crate::config::CompressionType;
use std::io::Write;
use vstd::prelude::*;

verus! {

/// An append-only byte sink.  `bytes` is the logical, uncompressed
/// stream handed to it; how the stream reaches disk is the
/// implementor's business.
pub trait RecordSink: Sized {
    /// Everything written so far.
    spec fn bytes(&self) -> Seq<u8>;

    /// Append `data` to the stream.  On success the stream grew by
    /// exactly `data`; a failure is fatal to the run, so nothing is
    /// promised of the stream then.
    fn write_all(&mut self, data: &Vec<u8>) -> (r: Result<(), String>)
        ensures
            r is Ok ==> final(self).bytes() == old(self).bytes() + data@,
    ;

    /// Push buffered bytes toward their destination.  Flushing never
    /// changes what was written.
    fn flush(&mut self) -> (r: Result<(), String>)
        ensures
            final(self).bytes() == old(self).bytes(),
    ;

    /// The size of the materialised output, read back from wherever
    /// the stream went, meaningful once `flush` succeeded.
    fn output_size(&self) -> (r: u64);
}

/// A sink that keeps the stream in memory.
pub struct MemSink {
    data: Vec<u8>,
}

impl MemSink {
    /// An empty sink.
    pub fn new() -> (r: MemSink)
        ensures
            r.bytes() == Seq::<u8>::empty(),
    {
        MemSink { data: Vec::new() }
    }

    /// Hand the accumulated stream back.
    pub fn into_bytes(self) -> (r: Vec<u8>)
        ensures
            r@ == self.bytes(),
    {
        self.data
    }
}

impl RecordSink for MemSink {
    closed spec fn bytes(&self) -> Seq<u8> {
        self.data@
    }

    fn write_all(&mut self, data: &Vec<u8>) -> (r: Result<(), String>)
        ensures
            r is Ok,
    {
        let mut i: usize = 0;
        while i < data.len()
            invariant
                i <= data.len(),
                self.data@ == old(self).data@ + data@.take(i as int),
            decreases data.len() - i,
        {
            self.data.push(data[i]);
            proof {
                assert(old(self).data@ + data@.take(i + 1) =~= (old(self).data@ + data@.take(
                    i as int,
                )).push(data@[i as int]));
            }
            i += 1;
        }
        proof {
            assert(data@.take(data@.len() as int) =~= data@);
        }
        Ok(())
    }

    fn flush(&mut self) -> (r: Result<(), String>)
        ensures
            r is Ok,
    {
        Ok(())
    }

    fn output_size(&self) -> (r: u64)
        ensures
            r == self.bytes().len(),
    {
        self.data.len() as u64
    }
}

/// The progress channel: one observation per report interval.
pub trait ProgressSink: Sized {
    /// Every observation so far: cumulative row count and momentary
    /// rows per second.
    spec fn reports(&self) -> Seq<(u64, u64)>;

    /// Emit one observation.
    fn report(&mut self, rows: u64, rows_per_sec: u64)
        ensures
            final(self).reports() == old(self).reports().push((rows, rows_per_sec)),
    ;
}

/// A progress channel that records its observations.
pub struct MemProgress {
    entries: Vec<(u64, u64)>,
}

impl MemProgress {
    /// A channel with no observations yet.
    pub fn new() -> (r: MemProgress)
        ensures
            r.reports() == Seq::<(u64, u64)>::empty(),
    {
        MemProgress { entries: Vec::new() }
    }

    /// Hand the recorded observations back.
    pub fn into_entries(self) -> (r: Vec<(u64, u64)>)
        ensures
            r@ == self.reports(),
    {
        self.entries
    }
}

impl ProgressSink for MemProgress {
    closed spec fn reports(&self) -> Seq<(u64, u64)> {
        self.entries@
    }

    fn report(&mut self, rows: u64, rows_per_sec: u64) {
        self.entries.push((rows, rows_per_sec));
    }
}

/// Relies on `std::io::Stdout::write_fmt` through `writeln`: prints one
/// progress line on standard output.  An output effect promises
/// nothing.
#[verifier::external_body]
fn print_progress_line(rows: u64, rows_per_sec: u64) {
    let _ = writeln!(std::io::stdout(), "Exported {} rows ({} rows/sec)", rows, rows_per_sec);
}

/// The progress channel an operator watches: each observation is
/// printed on standard output as it happens, and recorded.
pub struct ConsoleProgress {
    entries: Vec<(u64, u64)>,
}

impl ConsoleProgress {
    /// A console channel with no observations yet.
    pub fn new() -> (r: ConsoleProgress)
        ensures
            r.reports() == Seq::<(u64, u64)>::empty(),
    {
        ConsoleProgress { entries: Vec::new() }
    }
}

impl ProgressSink for ConsoleProgress {
    closed spec fn reports(&self) -> Seq<(u64, u64)> {
        self.entries@
    }

    fn report(&mut self, rows: u64, rows_per_sec: u64) {
        print_progress_line(rows, rows_per_sec);
        self.entries.push((rows, rows_per_sec));
    }
}

/// The gzip stream that flate2 produces for a byte sequence, with the
/// default compression level.  The encoding takes pages to state, but
/// for a fixed input it is one fixed output, so it only gets a name.
pub uninterp spec fn gzip_of(data: Seq<u8>) -> Seq<u8>;

/// Relies on flate2's `write::GzEncoder` over an in-memory buffer: one
/// contiguous gzip stream, a function of the input bytes alone.
/// Writing into a `Vec` cannot fail, so `finish` returns `Ok` here.
#[verifier::external_body]
fn gzip_bytes(data: &Vec<u8>) -> (r: Vec<u8>)
    ensures
        r@ == gzip_of(data@),
{
    let mut encoder = flate2::write::GzEncoder::new(Vec::new(), flate2::Compression::default());
    std::io::Write::write_all(&mut encoder, data).unwrap();
    encoder.finish().unwrap()
}

/// The output stream as it goes to disk: verbatim when uncompressed,
/// one gzip stream when gzip compression is configured.
pub fn compress_output(data: &Vec<u8>, compression: &CompressionType) -> (r: Vec<u8>)
    ensures
        compression is Plain ==> r@ == data@,
        compression is Gzip ==> r@ == gzip_of(data@),
{
    match compression {
        CompressionType::Plain => {
            let mut out: Vec<u8> = Vec::new();
            let mut i: usize = 0;
            while i < data.len()
                invariant
                    i <= data.len(),
                    out@ == data@.take(i as int),
                decreases data.len() - i,
            {
                out.push(data[i]);
                proof {
                    assert(data@.take(i + 1) =~= data@.take(i as int).push(data@[i as int]));
                }
                i += 1;
            }
            proof {
                assert(data@.take(data@.len() as int) =~= data@);
            }
            out
        },
        CompressionType::Gzip => gzip_bytes(data),
    }
}

} // verus!
