//! The response body: empty, full, one range, or several ranges.
use vstd::prelude::*;

use crate::stream::{FileBytesStream, FileBytesStreamMultiRange, FileBytesStreamRange};
use crate::vfs::{FileAccess, VfsError};

verus! {

/// The four body shapes a response can carry.
pub enum Body<F> {
    Empty,
    Full(FileBytesStream<F>),
    Range(FileBytesStreamRange<F>),
    MultiRange(FileBytesStreamMultiRange<F>),
}

impl<F: FileAccess> Body<F> {
    /// Well-formed: a multipart body's ranges and budget fit its file.
    pub open spec fn wf(&self) -> bool {
        match self {
            Body::MultiRange(m) => m.wf(),
            _ => true,
        }
    }

    /// The bytes this body will still emit.
    pub open spec fn output(&self) -> Seq<u8> {
        match self {
            Body::Empty => Seq::empty(),
            Body::Full(s) => s.output(),
            Body::Range(s) => s.output(),
            Body::MultiRange(m) => m.output(),
        }
    }

    /// The next chunk of the body, or `None` at its end.
    pub fn next_chunk(&mut self) -> (r: Result<Option<Vec<u8>>, VfsError>)
        requires
            old(self).wf(),
        ensures
            final(self).wf(),
            *old(self) is Empty ==> r == Ok::<Option<Vec<u8>>, VfsError>(None) && *final(self)
                is Empty,
            (*old(self)) matches Body::MultiRange(m) && m.completed ==> r == Ok::<
                Option<Vec<u8>>,
                VfsError,
            >(None) && *final(self) == *old(self),
            match r {
                Ok(Some(buf)) => buf@.len() > 0 && old(self).output() == buf@
                    + final(self).output(),
                Ok(None) => old(self).output().len() == 0,
                Err(_) => true,
            },
    {
        match self {
            Body::Empty => Ok(None),
            Body::Full(s) => s.next_chunk(),
            Body::Range(s) => s.next_chunk(),
            Body::MultiRange(m) => m.next_chunk(),
        }
    }
}

} // verus!
