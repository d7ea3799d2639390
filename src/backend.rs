use vstd::prelude::*;
use vstd::string::*;

verus! {

/// Error codes of storage backend operations.
#[derive(Clone, Debug)]
pub enum BackendError {
    /// Unsupported operation.
    Unsupported(String),
    /// Failed to copy data from or into a blob.
    CopyData(String),
}

/// Configuration of a network proxy.
#[derive(Clone, Debug)]
pub struct ProxyConfig {
    pub url: String,
    pub ping_url: String,
    pub fallback: bool,
    pub check_interval: u64,
}

impl Default for ProxyConfig {
    fn default() -> (r: Self)
        ensures
            r.url@ == Seq::<char>::empty(),
            r.ping_url@ == Seq::<char>::empty(),
            r.fallback,
            r.check_interval == 5,
    {
        ProxyConfig { url: String::new(), ping_url: String::new(), fallback: true, check_interval: 5 }
    }
}

/// Configuration shared by all storage backends.
#[derive(Clone, Debug)]
pub struct CommonConfig {
    pub proxy: ProxyConfig,
    pub timeout: u64,
    pub connect_timeout: u64,
    pub retry_limit: u8,
}

impl Default for CommonConfig {
    fn default() -> (r: Self)
        ensures
            r.proxy.url@ == Seq::<char>::empty(),
            r.proxy.ping_url@ == Seq::<char>::empty(),
            r.proxy.fallback,
            r.proxy.check_interval == 5,
            r.timeout == 5,
            r.connect_timeout == 5,
            r.retry_limit == 0,
    {
        CommonConfig { proxy: ProxyConfig::default(), timeout: 5, connect_timeout: 5, retry_limit: 0 }
    }
}

/// Digest and size of a blob's table of contents.
#[derive(Clone, Copy, Debug)]
pub struct TocInfo {
    pub digest: [u8; 32],
    pub size: u32,
}

/// What a read does after one try.
#[derive(Clone, Copy, Debug, PartialEq, Eq, Structural)]
pub enum ReadStep {
    /// Return the result of this try.
    Done,
    /// Try again, with this many retries left afterwards.
    Retry(u8),
}

/// The retry decision after a try that gave `res`, with `left` retries left:
/// a success is returned, a failure is tried again while retries are left and
/// returned once none is.
pub fn retry_step(res: &Result<usize, BackendError>, left: u8) -> (r: ReadStep)
    ensures
        res is Ok ==> r == ReadStep::Done,
        res is Err && left > 0 ==> r == ReadStep::Retry((left - 1) as u8),
        res is Err && left == 0 ==> r == ReadStep::Done,
        r matches ReadStep::Retry(l) ==> l < left,
{
    match res {
        Ok(_) => ReadStep::Done,
        Err(_) => {
            if left > 0 {
                ReadStep::Retry(left - 1)
            } else {
                ReadStep::Done
            }
        },
    }
}

/// Reads the content of one blob on a storage backend.
pub trait BlobReader {
    /// Size of the blob.
    fn blob_size(&self) -> Result<u64, BackendError>;

    /// Reads at most `buf.len()` bytes at `offset` once; returns how many were read.
    fn try_read(&self, buf: &mut [u8], offset: u64) -> (r: Result<usize, BackendError>)
        ensures
            final(buf)@.len() == old(buf)@.len(),
            r matches Ok(n) ==> n <= old(buf)@.len(),
    ;

    /// Digest and size of the table of contents stored at the blob's tail.
    fn toc_info(&self) -> Result<TocInfo, BackendError>;

    /// How many times a failed read is tried again.
    fn retry_limit(&self) -> u8 {
        0
    }

    /// Reads at most `buf.len()` bytes at `offset`, trying again up to
    /// `retry_limit()` times after a failure; returns the first success or the
    /// last failure.
    fn read(&self, buf: &mut [u8], offset: u64) -> (r: Result<usize, BackendError>)
        ensures
            final(buf)@.len() == old(buf)@.len(),
            r matches Ok(n) ==> n <= old(buf)@.len(),
    {
        let mut left: u8 = self.retry_limit();
        loop
            invariant
                buf@.len() == old(buf)@.len(),
            decreases left,
        {
            let res = self.try_read(buf, offset);
            match retry_step(&res, left) {
                ReadStep::Done => {
                    return res;
                },
                ReadStep::Retry(l) => {
                    left = l;
                },
            }
        }
    }
}

/// Writes blob content to a storage backend.
pub trait BlobWrite {
    /// How many times a failed write is tried again.
    fn retry_limit(&self) -> u8 {
        0
    }

    /// Writes `buf` at `offset`; returns how many bytes were written.
    fn write(&self, buf: &[u8], offset: u64) -> Result<usize, BackendError>;
}

/// Access to the blobs of a storage backend (local file system, object
/// storage, registry).
pub trait BlobBackend {
    type Reader: BlobReader;

    /// A reader of blob `blob_id`.
    fn get_reader(&self, blob_id: &str) -> Result<Self::Reader, BackendError>;

    /// Size of blob `blob_id`.
    fn blob_size(&self, blob_id: &str) -> Result<u64, BackendError> {
        match self.get_reader(blob_id) {
            Ok(reader) => reader.blob_size(),
            Err(e) => Err(e),
        }
    }
}

/// Scheme of network connections to backends when none is configured.
pub fn default_http_scheme() -> (r: String)
    ensures
        r@ == "https"@,
{
    String::from_str("https")
}

} // verus!
