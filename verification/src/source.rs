//! What the document model knows of the source of the bytes.

use vstd::prelude::*;

verus! {

/// Where the bytes come from.
#[derive(Clone, Copy, Debug, PartialEq, Eq, Structural)]
pub enum SourceProvider {
    /// A file that can be positioned.
    File,
    /// Standard input, read once from front to back.
    Stdin,
}

/// What may be done with a source.
#[derive(Clone, Copy, Debug, PartialEq, Eq, Structural)]
pub struct SourcePermissions {
    pub read: bool,
    pub write: bool,
}

/// Capabilities of a source, fixed when it is opened.
#[derive(Clone, Copy, Debug, PartialEq, Eq, Structural)]
pub struct SourceAttributes {
    /// Whether the source can be positioned.
    pub seekable: bool,
    /// Whether the source is read chunk by chunk as the views need it.
    pub stream: bool,
    pub permissions: SourcePermissions,
}

/// State of a source that changes while it is open.
#[derive(Clone, Copy, Debug, PartialEq, Eq, Structural)]
pub struct SourceState {
    /// Set once a streamed source has been read to its end.
    pub stream_end: bool,
}

/// An open source.
#[derive(Clone, Copy, Debug, PartialEq, Eq, Structural)]
pub struct Source {
    pub provider: SourceProvider,
    pub attr: SourceAttributes,
    pub state: SourceState,
}

/// How a source is to be opened.
#[derive(Clone, Copy, Debug, PartialEq, Eq, Structural)]
pub struct SourceArgs {
    /// Whether the path is the sentinel that stands for standard input.
    pub stdin: bool,
    /// Offset of the first byte to load.
    pub hard_seek: Option<usize>,
    /// Most bytes to load.
    pub take: Option<usize>,
    /// Open without permission to write.
    pub read_only: bool,
    /// Read chunk by chunk instead of all at once.
    pub stream: bool,
}

impl Source {
    /// The source that opening with `args` gives: standard input is a
    /// read-only stream that cannot be positioned; a file can be positioned,
    /// streams if asked to and can be written unless opened read-only. The
    /// state starts afresh.
    pub fn opened(args: &SourceArgs) -> (s: Source)
        ensures
            s.state == (SourceState { stream_end: false }),
            args.stdin ==> s.provider == SourceProvider::Stdin && s.attr == (SourceAttributes {
                seekable: false,
                stream: true,
                permissions: SourcePermissions { read: true, write: false },
            }),
            !args.stdin ==> s.provider == SourceProvider::File && s.attr == (SourceAttributes {
                seekable: true,
                stream: args.stream,
                permissions: SourcePermissions { read: true, write: !args.read_only },
            }),
    {
        if args.stdin {
            Source {
                provider: SourceProvider::Stdin,
                attr: SourceAttributes {
                    seekable: false,
                    stream: true,
                    permissions: SourcePermissions { read: true, write: false },
                },
                state: SourceState { stream_end: false },
            }
        } else {
            Source {
                provider: SourceProvider::File,
                attr: SourceAttributes {
                    seekable: true,
                    stream: args.stream,
                    permissions: SourcePermissions { read: true, write: !args.read_only },
                },
                state: SourceState { stream_end: false },
            }
        }
    }

    /// Whether all bytes are to be read when the source is opened: only
    /// files that are not streamed are.
    pub fn loads_at_once(&self) -> (b: bool)
        ensures
            b == (self.provider == SourceProvider::File && !self.attr.stream),
    {
        match self.provider {
            SourceProvider::File => !self.attr.stream,
            SourceProvider::Stdin => false,
        }
    }
}

} // verus!
