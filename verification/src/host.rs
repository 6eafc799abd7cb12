//! What the layer asks of its host, and what the host answers.

use vstd::prelude::*;

use crate::cb::GuiEvent;
use crate::path::string_views;
use crate::section::SectionImage;

verus! {

/// How a host file is opened; it is always readable.
#[derive(Clone, Copy, Debug, PartialEq, Eq, Structural)]
pub struct OpenPlan {
    pub write: bool,
    pub create: bool,
    /// The file must not exist.
    pub create_new: bool,
    pub truncate: bool,
}

/// Where a host file is positioned before an access.
#[derive(Clone, Copy, Debug, PartialEq, Eq, Structural)]
pub enum Seek {
    Keep,
    Start(u64),
    Current(i64),
    End(i64),
}

/// The times of a host entry, in 100-nanosecond intervals since 1601.
#[derive(Clone, Copy, Debug, PartialEq, Eq, Structural)]
pub struct Times {
    pub ctime: u64,
    pub atime: u64,
    pub mtime: u64,
}

/// The times that a host file is to get; one that is not given stays as it is.
#[derive(Clone, Copy, Debug, PartialEq, Eq, Structural)]
pub struct NewTimes {
    pub ctime: Option<u64>,
    pub atime: Option<u64>,
    pub mtime: Option<u64>,
}

/// One entry of a directory.
pub struct FindEntry {
    pub name: String,
    pub is_dir: bool,
    pub size: u64,
    pub ctime: u64,
    pub atime: u64,
    pub mtime: u64,
}

/// One entry of a directory as mathematics.
pub struct EntryView {
    pub name: Seq<char>,
    pub is_dir: bool,
    pub size: u64,
    pub ctime: u64,
    pub atime: u64,
    pub mtime: u64,
}

impl View for FindEntry {
    type V = EntryView;

    open spec fn view(&self) -> EntryView {
        EntryView {
            name: self.name@,
            is_dir: self.is_dir,
            size: self.size,
            ctime: self.ctime,
            atime: self.atime,
            mtime: self.mtime,
        }
    }
}

/// The views of some entries.
pub open spec fn entry_views(s: Seq<FindEntry>) -> Seq<EntryView> {
    Seq::new(s.len(), |i: int| s[i]@)
}

/// What a host directory holds.
pub struct Listing {
    /// The times of the directory itself.
    pub here: Times,
    /// The times of its parent.
    pub parent: Times,
    pub entries: Vec<FindEntry>,
}

/// Something that the host has to do before a call can be served.
pub enum HostRequest {
    Nothing,
    /// Open a file below the sandbox.
    Open { path: Vec<String>, plan: OpenPlan },
    Read { handle: u64, seek: Seek, len: u64 },
    Write { handle: u64, seek: Seek, data: Vec<u8> },
    SeekTo { handle: u64, seek: Seek },
    /// The size and the position of an open file.
    Stat { handle: u64 },
    /// Set the times of an open file.
    SetTimes { handle: u64, times: NewTimes },
    Close { handle: u64 },
    MakeDir { path: Vec<String> },
    Remove { path: Vec<String> },
    /// Create an empty file.
    Touch { path: Vec<String> },
    Attributes { path: Vec<String> },
    List { path: Vec<String> },
    /// The whole content of an open file, and what it parses to as an image where
    /// that is asked for.
    Content { handle: u64, image: bool },
    /// The next event of the window; `wait` for one, or see whether there is one.
    Event { wait: bool },
    /// The library that serves a contract, and the library itself where it is
    /// neither known nor emulated and `load` asks for it.
    Library { name: String, load: bool },
    Move { from: Vec<String>, to: Vec<String> },
    Copy { from: Vec<String>, to: Vec<String>, fail_if_there: bool },
}

/// A request as mathematics.
pub enum RequestView {
    Nothing,
    Open { path: Seq<Seq<char>>, plan: OpenPlan },
    Read { handle: u64, seek: Seek, len: u64 },
    Write { handle: u64, seek: Seek, data: Seq<u8> },
    SeekTo { handle: u64, seek: Seek },
    Stat { handle: u64 },
    SetTimes { handle: u64, times: NewTimes },
    Close { handle: u64 },
    MakeDir { path: Seq<Seq<char>> },
    Remove { path: Seq<Seq<char>> },
    Touch { path: Seq<Seq<char>> },
    Attributes { path: Seq<Seq<char>> },
    List { path: Seq<Seq<char>> },
    Content { handle: u64, image: bool },
    Event { wait: bool },
    Library { name: Seq<char>, load: bool },
    Move { from: Seq<Seq<char>>, to: Seq<Seq<char>> },
    Copy { from: Seq<Seq<char>>, to: Seq<Seq<char>>, fail_if_there: bool },
}

impl View for HostRequest {
    type V = RequestView;

    open spec fn view(&self) -> RequestView {
        match *self {
            HostRequest::Nothing => RequestView::Nothing,
            HostRequest::Open { path, plan } => RequestView::Open {
                path: string_views(path@),
                plan,
            },
            HostRequest::Read { handle, seek, len } => RequestView::Read { handle, seek, len },
            HostRequest::Write { handle, seek, data } => RequestView::Write {
                handle,
                seek,
                data: data@,
            },
            HostRequest::SeekTo { handle, seek } => RequestView::SeekTo { handle, seek },
            HostRequest::Stat { handle } => RequestView::Stat { handle },
            HostRequest::SetTimes { handle, times } => RequestView::SetTimes { handle, times },
            HostRequest::Close { handle } => RequestView::Close { handle },
            HostRequest::MakeDir { path } => RequestView::MakeDir { path: string_views(path@) },
            HostRequest::Remove { path } => RequestView::Remove { path: string_views(path@) },
            HostRequest::Touch { path } => RequestView::Touch { path: string_views(path@) },
            HostRequest::Attributes { path } => RequestView::Attributes {
                path: string_views(path@),
            },
            HostRequest::List { path } => RequestView::List { path: string_views(path@) },
            HostRequest::Content { handle, image } => RequestView::Content { handle, image },
            HostRequest::Event { wait } => RequestView::Event { wait },
            HostRequest::Library { name, load } => RequestView::Library { name: name@, load },
            HostRequest::Move { from, to } => RequestView::Move {
                from: string_views(from@),
                to: string_views(to@),
            },
            HostRequest::Copy { from, to, fail_if_there } => RequestView::Copy {
                from: string_views(from@),
                to: string_views(to@),
                fail_if_there,
            },
        }
    }
}

/// What the host answers. An answer that does not fit the request counts as a
/// failure.
pub enum HostReply {
    /// Nothing was asked, or it failed.
    Nothing,
    /// A file was opened; whether it existed before, and whether it is a
    /// directory.
    Opened { existed: bool, is_dir: bool },
    /// The bytes that were read.
    Data(Vec<u8>),
    /// How many bytes were written, or the new position.
    Count(u64),
    Stat { size: u64, pos: u64 },
    Done,
    Attributes { is_dir: bool },
    Listing(Listing),
    /// The content of a file, and the image it holds.
    Content { data: Vec<u8>, image: Option<SectionImage> },
    Event(GuiEvent),
    /// The library that serves a contract, and where a library was loaded to; 0
    /// where loading was tried and failed.
    Library { host: Option<String>, loaded: Option<u64> },
    /// The destination of a copy is there already.
    Exists,
}

impl HostReply {
    /// The library that serves the contract that was asked about.
    pub open spec fn spec_host(self) -> Option<Seq<char>> {
        match self {
            HostReply::Library { host: Some(h), .. } => Some(h@),
            _ => None,
        }
    }

    /// Where a library was loaded to, if loading was tried.
    pub open spec fn spec_loaded(self) -> Option<u64> {
        match self {
            HostReply::Library { loaded, .. } => loaded,
            _ => None,
        }
    }

    /// Where a library was loaded to, if loading was tried.
    pub fn loaded(&self) -> (r: Option<u64>)
        ensures
            r == self.spec_loaded(),
    {
        match self {
            HostReply::Library { loaded, .. } => *loaded,
            _ => None,
        }
    }

    /// The count of the answer; 0 where it is none.
    pub open spec fn spec_count(self) -> u64 {
        match self {
            HostReply::Count(n) => n,
            _ => 0,
        }
    }

    /// The count of the answer; 0 where it is none.
    pub fn count(&self) -> (n: u64)
        ensures
            n == self.spec_count(),
    {
        match self {
            HostReply::Count(n) => *n,
            _ => 0,
        }
    }

    /// The bytes of the answer; none where it holds none.
    pub open spec fn spec_data(self) -> Seq<u8> {
        match self {
            HostReply::Data(d) => d@,
            _ => Seq::empty(),
        }
    }

    /// The event of the answer.
    pub open spec fn spec_event(self) -> Option<GuiEvent> {
        match self {
            HostReply::Event(e) => Some(e),
            _ => None,
        }
    }

    /// The event of the answer.
    pub fn event(&self) -> (e: Option<GuiEvent>)
        ensures
            e == self.spec_event(),
    {
        match self {
            HostReply::Event(e) => Some(*e),
            _ => None,
        }
    }

    /// The size and the position of the answer; both 0 where it holds none.
    pub open spec fn spec_stat(self) -> (u64, u64) {
        match self {
            HostReply::Stat { size, pos } => (size, pos),
            _ => (0, 0),
        }
    }

    /// The size and the position of the answer; both 0 where it holds none.
    pub fn stat(&self) -> (r: (u64, u64))
        ensures
            r == self.spec_stat(),
    {
        match self {
            HostReply::Stat { size, pos } => (*size, *pos),
            _ => (0, 0),
        }
    }
}

} // verus!
