use vstd::prelude::*;

use crate::codec::{build_gnu_file_header, gnu_file_header};
use crate::error::BuildError;

verus! {

/// Where an output artifact goes.
#[derive(Clone, Debug)]
pub enum ArtifactStorage {
    /// A file named by the user; it is never renamed.
    SingleFile(String),
    /// A directory; the file in it is named when the artifact is finalized.
    FileDir(String),
}

/// What finalizing an artifact does to the file system.
#[derive(Clone, Debug)]
pub enum FinalizeAction {
    /// Leave every file as it is.
    Keep,
    /// Rename the temporary file to this name inside the storage directory.
    RenameTo(String),
    /// Remove the user-named output file: the artifact turned out empty.
    Remove,
}

impl ArtifactStorage {
    pub open spec fn path(&self) -> Seq<char> {
        match self {
            ArtifactStorage::SingleFile(p) => p@,
            ArtifactStorage::FileDir(p) => p@,
        }
    }

    /// A copy of this storage.
    pub fn copy(&self) -> (r: Self)
        ensures
            r.path() == self.path(),
            r is SingleFile <==> self is SingleFile,
    {
        match self {
            ArtifactStorage::SingleFile(p) => ArtifactStorage::SingleFile(p.clone()),
            ArtifactStorage::FileDir(p) => ArtifactStorage::FileDir(p.clone()),
        }
    }

    /// The path of the storage, file or directory.
    pub fn display(&self) -> (r: String)
        ensures
            r@ == self.path(),
    {
        match self {
            ArtifactStorage::SingleFile(p) => p.clone(),
            ArtifactStorage::FileDir(p) => p.clone(),
        }
    }

    /// A single file with an empty path.
    pub fn default() -> (r: Self)
        ensures
            r is SingleFile,
            r.path() == Seq::<char>::empty(),
    {
        ArtifactStorage::SingleFile(String::new())
    }

    /// Decides what finalizing an artifact written to this storage does.
    ///
    /// With a name and a directory storage the temporary file is renamed to
    /// that name unless a file of that name exists already (the first writer
    /// wins). Without a name, a single-file storage whose path is a regular
    /// file is removed. Anything else keeps the files as they are.
    pub fn finalize_action(
        &self,
        name: Option<String>,
        named_target_exists: bool,
        single_file_is_regular: bool,
    ) -> (r: FinalizeAction)
        ensures
            (self is FileDir && name is Some && !named_target_exists) ==> (r matches
                FinalizeAction::RenameTo(n) && n@ == name->0@),
            (self is SingleFile && name is None && single_file_is_regular) ==> r is Remove,
            !((self is FileDir && name is Some && !named_target_exists) || (self is SingleFile
                && name is None && single_file_is_regular)) ==> r is Keep,
    {
        match name {
            Some(n) => {
                match self {
                    ArtifactStorage::FileDir(_) => {
                        if !named_target_exists {
                            FinalizeAction::RenameTo(n)
                        } else {
                            FinalizeAction::Keep
                        }
                    },
                    ArtifactStorage::SingleFile(_) => FinalizeAction::Keep,
                }
            },
            None => {
                match self {
                    ArtifactStorage::SingleFile(_) => {
                        if single_file_is_regular {
                            FinalizeAction::Remove
                        } else {
                            FinalizeAction::Keep
                        }
                    },
                    ArtifactStorage::FileDir(_) => FinalizeAction::Keep,
                }
            },
        }
    }
}

/// A sink that artifact bytes are appended to.
pub trait ArtifactWrite {
    /// The bytes of the stream up to the write position.
    spec fn written(&self) -> Seq<u8>;

    /// Appends all of `data`.
    fn write_all(&mut self, data: &[u8]) -> (r: Result<(), BuildError>)
        ensures
            r is Ok ==> final(self).written() == old(self).written() + data@,
    ;
}

/// Writes the GNU tar header that labels the `size` bytes written before it
/// as regular file `name`, and returns the header.
///
/// The header follows its payload so that payloads of unknown length can be
/// streamed; readers find each header by scanning back from the end.
pub fn write_tar_header<W: ArtifactWrite>(writer: &mut W, name: &str, size: u64) -> (r: Result<
    Vec<u8>,
    BuildError,
>)
    ensures
        r matches Ok(h) ==> h@ == gnu_file_header(name@, size) && h@.len() == 512
            && final(writer).written() == old(writer).written() + h@,
{
    match build_gnu_file_header(name, size) {
        Some(header) => {
            match writer.write_all(header.as_slice()) {
                Ok(()) => Ok(header),
                Err(e) => Err(e),
            }
        },
        None => Err(BuildError::IoFailure),
    }
}

/// Target of a seek on an in-memory artifact.
#[derive(Clone, Copy, Debug, PartialEq, Eq, Structural)]
pub enum SeekPos {
    Start(u64),
    End(i64),
    Current(i64),
}

/// The bytes of `buf` after writing `data` at `pos`; a gap between the end of
/// `buf` and `pos` is filled with zeros.
pub open spec fn write_at(buf: Seq<u8>, pos: nat, data: Seq<u8>) -> Seq<u8> {
    let padded = if pos <= buf.len() {
        buf
    } else {
        buf + Seq::new((pos - buf.len()) as nat, |i: int| 0u8)
    };
    let end = pos + data.len();
    padded.subrange(0, pos as int) + data + if end < padded.len() {
        padded.subrange(end as int, padded.len() as int)
    } else {
        Seq::<u8>::empty()
    }
}

/// The position a seek moves to, if it is neither negative nor past `u64::MAX`.
pub open spec fn seek_target(len: nat, pos: nat, to: SeekPos) -> Option<nat> {
    let t: int = match to {
        SeekPos::Start(n) => n as int,
        SeekPos::End(d) => len + d,
        SeekPos::Current(d) => pos + d,
    };
    if 0 <= t <= u64::MAX {
        Some(t as nat)
    } else {
        None
    }
}

/// An in-memory, seekable bootstrap writer.
pub struct ArtifactMemoryWriter {
    buf: Vec<u8>,
    pos: u64,
}

impl ArtifactMemoryWriter {
    /// The bytes written so far.
    pub closed spec fn bytes(&self) -> Seq<u8> {
        self.buf@
    }

    /// The position of the next write.
    pub closed spec fn position(&self) -> nat {
        self.pos as nat
    }

    /// An empty writer at position zero.
    pub fn default() -> (r: Self)
        ensures
            r.bytes() == Seq::<u8>::empty(),
            r.position() == 0,
    {
        ArtifactMemoryWriter { buf: Vec::new(), pos: 0 }
    }

    /// Writes all of `data` at the current position and moves past it.
    pub fn write(&mut self, data: &[u8]) -> (r: usize)
        requires
            old(self).position() + data@.len() <= usize::MAX,
        ensures
            r == data@.len(),
            final(self).bytes() == write_at(old(self).bytes(), old(self).position(), data@),
            final(self).position() == old(self).position() + data@.len(),
    {
        let pos = self.pos as usize;
        let ghost padded = if pos <= self.buf@.len() {
            self.buf@
        } else {
            self.buf@ + Seq::new((pos - self.buf@.len()) as nat, |i: int| 0u8)
        };
        while self.buf.len() < pos
            invariant
                self.pos == pos,
                pos <= usize::MAX,
                old(self).buf@.len() <= self.buf@.len(),
                self.buf@.len() <= pos || self.buf@ == old(self).buf@,
                padded == (if pos <= old(self).buf@.len() {
                    old(self).buf@
                } else {
                    old(self).buf@ + Seq::new((pos - old(self).buf@.len()) as nat, |i: int| 0u8)
                }),
                self.buf@ == padded.subrange(0, self.buf@.len() as int),
            decreases pos - self.buf.len(),
        {
            self.buf.push(0u8);
        }
        assert(self.buf@ =~= padded.subrange(0, pos as int) + padded.subrange(pos as int, padded.len() as int));
        let mut i: usize = 0;
        while i < data.len()
            invariant
                self.pos == pos,
                pos + data@.len() <= usize::MAX,
                padded.len() >= pos,
                i <= data@.len(),
                self.buf@.len() >= pos + i,
                self.buf@.subrange(0, pos as int) == padded.subrange(0, pos as int),
                self.buf@.subrange(pos as int, pos + i) == data@.subrange(0, i as int),
                self.buf@.len() == if pos + i <= padded.len() { padded.len() as int } else { pos + i },
                forall|k: int| pos + i <= k < self.buf@.len() ==> self.buf@[k] == padded[k],
            decreases data.len() - i,
        {
            let at = pos + i;
            if at < self.buf.len() {
                self.buf.set(at, data[i]);
            } else {
                self.buf.push(data[i]);
            }
            assert(self.buf@.subrange(pos as int, pos + i + 1) =~= data@.subrange(0, i + 1));
            assert(self.buf@.subrange(0, pos as int) =~= padded.subrange(0, pos as int));
            i = i + 1;
        }
        proof {
            let w = write_at(old(self).buf@, pos as nat, data@);
            let end = pos + data@.len();
            assert(w.len() == self.buf@.len());
            assert forall|k: int| 0 <= k < w.len() implies w[k] == self.buf@[k] by {
                if k < pos {
                    assert(self.buf@[k] == self.buf@.subrange(0, pos as int)[k]);
                } else if k < end {
                    assert(self.buf@[k] == self.buf@.subrange(pos as int, end)[k - pos]);
                }
            }
            assert(self.buf@ =~= w);
        }
        self.pos = (pos + data.len()) as u64;
        data.len()
    }

    /// Moves the position; fails, and keeps it, if the target is negative or
    /// past `u64::MAX`.
    pub fn seek(&mut self, to: SeekPos) -> (r: Option<u64>)
        ensures
            final(self).bytes() == old(self).bytes(),
            seek_target(old(self).bytes().len(), old(self).position(), to) matches Some(t) ==> (r
                == Some(t as u64) && final(self).position() == t),
            seek_target(old(self).bytes().len(), old(self).position(), to) is None ==> (r is None
                && final(self).position() == old(self).position()),
    {
        let base: i128 = match to {
            SeekPos::Start(n) => n as i128,
            SeekPos::End(d) => self.buf.len() as i128 + d as i128,
            SeekPos::Current(d) => self.pos as i128 + d as i128,
        };
        if 0 <= base && base <= u64::MAX as i128 {
            self.pos = base as u64;
            Some(self.pos)
        } else {
            None
        }
    }

    /// Rewinds to position zero and returns everything written.
    pub fn as_bytes(&mut self) -> (r: &[u8])
        ensures
            r@ == old(self).bytes(),
            final(self).bytes() == old(self).bytes(),
            final(self).position() == 0,
    {
        self.pos = 0;
        self.buf.as_slice()
    }
}

/// The bytes before position `pos`, a gap past the end of `buf` read as zeros.
pub open spec fn written_prefix(buf: Seq<u8>, pos: nat) -> Seq<u8> {
    if pos <= buf.len() {
        buf.subrange(0, pos as int)
    } else {
        buf + Seq::new((pos - buf.len()) as nat, |i: int| 0u8)
    }
}

impl ArtifactWrite for ArtifactMemoryWriter {
    open spec fn written(&self) -> Seq<u8> {
        written_prefix(self.bytes(), self.position())
    }

    fn write_all(&mut self, data: &[u8]) -> (r: Result<(), BuildError>) {
        if self.pos as u128 + data.len() as u128 > usize::MAX as u128 {
            Err(BuildError::IoFailure)
        } else {
            let ghost b0 = self.bytes();
            let ghost p0 = self.position();
            self.write(data);
            proof {
                let w = write_at(b0, p0, data@);
                assert(self.bytes() == w);
                assert(written_prefix(w, p0 + data@.len()) =~= written_prefix(b0, p0) + data@);
            }
            Ok(())
        }
    }
}

} // verus!
