//! Installing the files of a Java runtime: what each node of the manifest
//! takes, how a file's bytes are had, and the progress that is reported.

use vstd::prelude::*;
use vstd::string::*;
use crate::java_files::{JavaFile, JavaFileDownload};

verus! {

/// What the bytes decode to as an LZMA stream: the decoded bytes, or `None`
/// where they are no such stream.
pub uninterp spec fn lzma_decoded(input: Seq<u8>) -> Option<Seq<u8>>;

/// `lzma_rs::lzma_decompress` on bytes in memory: the decoded bytes, which
/// depend on the input alone, or `None` where decoding fails.
#[verifier::external_body]
pub(crate) fn lzma_decode(input: &[u8]) -> (r: Option<Vec<u8>>)
    ensures
        r is Some <==> lzma_decoded(input@) is Some,
        r matches Some(out) ==> lzma_decoded(input@) == Some(out@),
{
    let mut reader = std::io::BufReader::new(std::io::Cursor::new(input));
    let mut out = Vec::new();
    match lzma_rs::lzma_decompress(&mut reader, &mut out) {
        Ok(()) => Some(out),
        Err(_) => None,
    }
}

/// One report of progress: how much of how much is done.
pub struct GenericProgress {
    pub done: usize,
    pub total: usize,
    pub message: Option<String>,
    pub has_finished: bool,
}

/// Where progress is reported to. A sink that nobody listens to any more
/// takes reports and drops them.
pub struct ProgressSink {
    pub connected: bool,
    pub received: Vec<GenericProgress>,
}

/// What installing one node of the manifest takes.
#[derive(PartialEq, Eq, Structural, Clone, Copy, Debug)]
pub enum NodeAction {
    /// Download the file and write it; mark it executable where
    /// `make_executable` is set.
    WriteFile { make_executable: bool },
    /// Create the directory.
    CreateDirectory,
    /// A link: nothing is created.
    SkipLink,
}

/// What to do next for a file whose download was asked for.
pub enum FileStep {
    /// The file's bytes.
    Done(Vec<u8>),
    /// Download the bytes as they are from this address.
    FetchRaw(String),
}

/// What installing a node takes. A file is marked executable only where the
/// manifest says so and the platform is a Unix.
pub open spec fn node_action_of(file: JavaFile, unix: bool) -> NodeAction {
    match file {
        JavaFile::file { executable, .. } => NodeAction::WriteFile {
            make_executable: executable && unix,
        },
        JavaFile::directory {  } => NodeAction::CreateDirectory,
        JavaFile::link { .. } => NodeAction::SkipLink,
    }
}

/// The address that a file is asked from first, and whether what comes from
/// there is compressed: the compressed variant where there is one.
pub open spec fn first_address(downloads: JavaFileDownload) -> (Seq<char>, bool) {
    match downloads.lzma {
        Some(lzma) => (lzma.url@, true),
        None => (downloads.raw.url@, false),
    }
}

/// The report that precedes the installation of one file.
pub open spec fn file_progress(done: usize, total: usize, file_name: Seq<char>) -> (
    usize,
    usize,
    Option<Seq<char>>,
    bool,
) {
    (done, total, Some("Installing file: "@ + file_name), false)
}

impl GenericProgress {
    /// The report as plain values.
    pub open spec fn view(&self) -> (usize, usize, Option<Seq<char>>, bool) {
        (
            self.done,
            self.total,
            match self.message {
                Some(m) => Some(m@),
                None => None,
            },
            self.has_finished,
        )
    }

    /// The report that an installation begins with.
    pub fn default() -> (progress: GenericProgress)
        ensures
            progress.done == 0,
            progress.total == 1,
            progress.message is None,
            !progress.has_finished,
    {
        GenericProgress { done: 0, total: 1, message: None, has_finished: false }
    }

    /// The report that an installation ends with.
    pub fn finished() -> (progress: GenericProgress)
        ensures
            progress.done == 1,
            progress.total == 1,
            progress.message is None,
            progress.has_finished,
    {
        GenericProgress { done: 1, total: 1, message: None, has_finished: true }
    }
}

impl ProgressSink {
    /// The reports received, as plain values.
    pub open spec fn view(&self) -> Seq<(usize, usize, Option<Seq<char>>, bool)> {
        Seq::new(self.received@.len(), |i: int| self.received@[i]@)
    }

    /// A sink that is listened to and has received nothing.
    pub fn new() -> (sink: ProgressSink)
        ensures
            sink.connected,
            sink@ == Seq::<(usize, usize, Option<Seq<char>>, bool)>::empty(),
    {
        let sink = ProgressSink { connected: true, received: Vec::new() };
        proof {
            assert(sink@ =~= Seq::<(usize, usize, Option<Seq<char>>, bool)>::empty());
        }
        sink
    }
}

/// Reports progress: the sink receives the report where it is listened to,
/// and nothing happens where it is not.
pub fn send_progress(sink: &mut ProgressSink, progress: GenericProgress)
    ensures
        final(sink).connected == old(sink).connected,
        final(sink)@ == (if old(sink).connected {
            old(sink)@.push(progress@)
        } else {
            old(sink)@
        }),
{
    if sink.connected {
        proof {
            assert(Seq::new(
                sink.received@.push(progress).len(),
                |i: int| sink.received@.push(progress)[i]@,
            ) =~= sink@.push(progress@));
        }
        sink.received.push(progress);
    }
}

/// Counts one more file and gives the report that precedes its
/// installation: the files counted before it, of `num_files`.
pub fn next_file_progress(file_num: &mut usize, num_files: usize, file_name: &str) -> (progress:
    GenericProgress)
    requires
        *old(file_num) < usize::MAX,
    ensures
        *final(file_num) == *old(file_num) + 1,
        progress@ == file_progress(*old(file_num), num_files, file_name@),
{
    let progress = GenericProgress {
        done: *file_num,
        total: num_files,
        message: Some(String::from_str("Installing file: ").concat(file_name)),
        has_finished: false,
    };
    *file_num = *file_num + 1;
    progress
}

/// What installing the node `file` takes.
pub fn java_install_fn(file: &JavaFile, unix: bool) -> (action: NodeAction)
    ensures
        action == node_action_of(*file, unix),
{
    match file {
        JavaFile::file { executable, .. } => NodeAction::WriteFile {
            make_executable: *executable && unix,
        },
        JavaFile::directory {  } => NodeAction::CreateDirectory,
        JavaFile::link { .. } => NodeAction::SkipLink,
    }
}

/// The address to ask a file from first, and whether what comes from there
/// is compressed.
pub fn download_file(downloads: &JavaFileDownload) -> (r: (String, bool))
    ensures
        (r.0@, r.1) == first_address(*downloads),
{
    match &downloads.lzma {
        Some(lzma) => (lzma.url.clone(), true),
        None => (downloads.raw.url.clone(), false),
    }
}

/// What follows decoding a compressed download: the decoded bytes, or the
/// download of the bytes as they are where decoding failed.
pub fn after_decode(decoded: Option<Vec<u8>>, downloads: &JavaFileDownload) -> (step: FileStep)
    ensures
        match decoded {
            Some(bytes) => step == FileStep::Done(bytes),
            None => step matches FileStep::FetchRaw(url) && url@ == downloads.raw.url@,
        },
{
    match decoded {
        Some(bytes) => FileStep::Done(bytes),
        None => FileStep::FetchRaw(downloads.raw.url.clone()),
    }
}

/// What follows a compressed download: its bytes decoded, or the download
/// of the bytes as they are where they do not decode.
pub fn after_compressed_download(compressed: &[u8], downloads: &JavaFileDownload) -> (step:
    FileStep)
    ensures
        match lzma_decoded(compressed@) {
            Some(bytes) => step matches FileStep::Done(out) && out@ == bytes,
            None => step matches FileStep::FetchRaw(url) && url@ == downloads.raw.url@,
        },
{
    after_decode(lzma_decode(compressed), downloads)
}

} // verus!
