//! One source of a document: an open file, or the buffer that a document
//! starts from, with what the directives read so far have set.

use vstd::prelude::*;

use crate::cmd::{with_scope, Cmd, CmdModel, Directory, Handle, Scopes};
use crate::line_view::directive_reader::DirectiveReader;
use crate::line_view::directive_source::{DirectiveStream, StreamModel};
use crate::line_view::line_map::{DirectiveMapperChain, FrameModel};
use crate::text::{copy_string, copy_strings};

verus! {

/// Whether the warnings of a source are collected in place of being shown.
#[derive(Debug, PartialEq, Eq)]
pub enum Watch {
    Watching { occured: Vec<String> },
    Sleeping,
}

/// What a [`Watch`] stands for.
#[verifier::ext_equal]
pub enum WatchModel {
    Watching { occured: Seq<Seq<char>> },
    Sleeping,
}

impl View for Watch {
    type V = WatchModel;

    open spec fn view(&self) -> WatchModel {
        match self {
            Watch::Watching { occured } => WatchModel::Watching { occured: occured.deep_view() },
            Watch::Sleeping => WatchModel::Sleeping,
        }
    }
}

impl WatchModel {
    /// The watch once `watch` was called for: one that sleeps starts to
    /// watch, with nothing collected; one that watches goes on.
    pub open spec fn watched(self) -> WatchModel {
        match self {
            WatchModel::Sleeping => WatchModel::Watching { occured: Seq::empty() },
            WatchModel::Watching { .. } => self,
        }
    }

    /// The watch with `warning` collected behind the others, if it watches.
    pub open spec fn noted(self, warning: Seq<char>) -> WatchModel {
        match self {
            WatchModel::Sleeping => self,
            WatchModel::Watching { occured } => WatchModel::Watching {
                occured: occured.push(warning),
            },
        }
    }
}

impl Default for Watch {
    fn default() -> (watch: Self)
        ensures
            watch@ == WatchModel::Sleeping,
    {
        Watch::Sleeping
    }
}

impl Watch {
    /// Starts to watch, unless the watch is on already.
    pub fn watch(&mut self)
        ensures
            final(self)@ == old(self)@.watched(),
    {
        if self.is_sleeping() {
            let occured: Vec<String> = Vec::new();
            proof {
                assert(occured.deep_view() =~= Seq::empty());
            }
            *self = Watch::Watching { occured };
        }
    }

    /// Stops watching; what was collected is dropped.
    pub fn sleep(&mut self)
        ensures
            final(self)@ == WatchModel::Sleeping,
    {
        if self.is_watching() {
            *self = Watch::Sleeping;
        }
    }

    pub fn is_sleeping(&self) -> (sleeping: bool)
        ensures
            sleeping == (self@ is Sleeping),
    {
        match self {
            Watch::Sleeping => true,
            Watch::Watching { .. } => false,
        }
    }

    pub fn is_watching(&self) -> (watching: bool)
        ensures
            watching == (self@ is Watching),
    {
        match self {
            Watch::Watching { .. } => true,
            Watch::Sleeping => false,
        }
    }

    /// The watch as it is, taken away; one that sleeps is left behind.
    pub fn take(&mut self) -> (taken: Self)
        ensures
            taken@ == old(self)@,
            final(self)@ == WatchModel::Sleeping,
    {
        let mut taken = Watch::Sleeping;
        core::mem::swap(self, &mut taken);
        taken
    }

    /// Collects `warning` if the watch is on, and says whether it did.
    pub fn note(&mut self, warning: String) -> (noted: bool)
        ensures
            noted == (old(self)@ is Watching),
            final(self)@ == old(self)@.noted(warning@),
    {
        match self {
            Watch::Watching { occured } => {
                let ghost before = occured.deep_view();
                occured.push(warning);
                proof {
                    assert(occured.deep_view() =~= before.push(warning@));
                }
                true
            },
            Watch::Sleeping => false,
        }
    }

    /// A copy of the watch.
    pub fn copy(&self) -> (copy: Self)
        ensures
            copy@ == self@,
    {
        match self {
            Watch::Watching { occured } => Watch::Watching { occured: copy_strings(occured) },
            Watch::Sleeping => Watch::Sleeping,
        }
    }
}

/// One source with what belongs to it: the stream of its directives, its
/// path and directory, the command that its lines run, the set of paths that
/// it shares with the sources read in its context, its watch and its chain
/// of filters.
#[derive(Debug)]
pub struct Source<R> {
    pub read: DirectiveStream<R>,
    pub path: String,
    pub cmd: Handle,
    /// The index, among the sets of the document, of the set of paths that
    /// were read in the context of this source.
    pub sourced: usize,
    pub dir: String,
    pub warning_watcher: Watch,
    pub line_map: Option<DirectiveMapperChain>,
}

/// What a [`Source`] stands for.
#[verifier::ext_equal]
pub struct SourceModel {
    pub read: StreamModel,
    pub path: Seq<char>,
    pub cmd: Handle,
    pub sourced: usize,
    pub dir: Seq<char>,
    pub warning_watcher: WatchModel,
    pub line_map: Option<Seq<FrameModel>>,
}

/// What a chain that may be missing stands for.
pub open spec fn chain_model(line_map: Option<DirectiveMapperChain>) -> Option<Seq<FrameModel>> {
    match line_map {
        Some(chain) => Some(chain@),
        None => None,
    }
}

impl<R> View for Source<R> {
    type V = SourceModel;

    open spec fn view(&self) -> SourceModel {
        SourceModel {
            read: self.read@,
            path: self.path@,
            cmd: self.cmd,
            sourced: self.sourced,
            dir: self.dir@,
            warning_watcher: self.warning_watcher@,
            line_map: chain_model(self.line_map),
        }
    }
}

impl SourceModel {
    /// The source of the file `path` in directory `dir`, with nothing read
    /// and nothing set: its command is the first of a new scope of
    /// `commands`.
    pub open spec fn opened(
        path: Seq<char>,
        dir: Seq<char>,
        sourced: usize,
        commands: Scopes<CmdModel>,
        read: StreamModel,
    ) -> SourceModel {
        SourceModel {
            read,
            path,
            cmd: Handle::at(commands.len() as usize, 0),
            sourced,
            dir,
            warning_watcher: WatchModel::Sleeping,
            line_map: None,
        }
    }

    /// What the frames that trace show of the next directive of the source,
    /// `line` being what its reader just read: the directive as it comes to
    /// each of them, from the top of the chain down.
    pub open spec fn traced_by(self, line: Option<Seq<char>>) -> Seq<
        crate::directive::DirectiveModel,
    > {
        match self.line_map {
            Some(frames) => crate::line_view::line_map::traced(
                frames,
                self.read.read(line).directive,
                0,
            ),
            None => Seq::empty(),
        }
    }

    /// The source without its stream: what a source read in its context
    /// starts from.
    pub open spec fn shallow(self) -> SourceModel {
        SourceModel {
            read: StreamModel::null(),
            path: self.path,
            cmd: self.cmd,
            sourced: self.sourced,
            dir: self.dir,
            warning_watcher: self.warning_watcher,
            line_map: self.line_map,
        }
    }
}

impl<R> Source<R> {
    /// A source of the file `path` in directory `dir` that reads nothing. Its
    /// command is the first of a new scope of `cmd_directory`; `sourced` is
    /// the index of its set of paths.
    pub fn new(path: String, dir: String, sourced: usize, cmd_directory: &mut Directory<Cmd>) -> (source:
        Self)
        ensures
            source@ == SourceModel::opened(
                path@,
                dir@,
                sourced,
                old(cmd_directory)@,
                StreamModel::null(),
            ),
            source.read.inner() is None,
            old(cmd_directory)@.len() <= usize::MAX,
            final(cmd_directory)@ == with_scope(old(cmd_directory)@, CmdModel::empty()),
    {
        let cmd = cmd_directory.new_handle();
        proof {
            cmd.lemma_is_at();
        }
        Self {
            read: DirectiveStream::null(),
            dir,
            path,
            sourced,
            cmd,
            warning_watcher: Watch::Sleeping,
            line_map: None,
        }
    }

    /// A copy of the source without its stream.
    pub fn shallow(&self) -> (shallow: Self)
        ensures
            shallow@ == self@.shallow(),
            shallow.read.inner() is None,
    {
        Self {
            read: DirectiveStream::null(),
            path: copy_string(&self.path),
            cmd: self.cmd,
            sourced: self.sourced,
            dir: copy_string(&self.dir),
            warning_watcher: self.warning_watcher.copy(),
            line_map: match &self.line_map {
                Some(chain) => Some(chain.copy()),
                None => None,
            },
        }
    }

    /// The source of the file `path` in directory `dir`, whose lines `read`
    /// reads. Its command is the first of a new scope of `cmd_directory`;
    /// `sourced` is the index of its set of paths.
    pub fn open(
        path: String,
        dir: String,
        read: R,
        sourced: usize,
        cmd_directory: &mut Directory<Cmd>,
    ) -> (source: Self)
        ensures
            source@ == SourceModel::opened(
                path@,
                dir@,
                sourced,
                old(cmd_directory)@,
                StreamModel::fresh(),
            ),
            source.read.inner() == Some(read),
            old(cmd_directory)@.len() <= usize::MAX,
            final(cmd_directory)@ == with_scope(old(cmd_directory)@, CmdModel::empty()),
    {
        let stream = DirectiveStream::new(DirectiveReader::new(read));
        let cmd = cmd_directory.new_handle();
        proof {
            cmd.lemma_is_at();
        }
        Self {
            read: stream,
            dir,
            path,
            sourced,
            cmd,
            warning_watcher: Watch::Sleeping,
            line_map: None,
        }
    }
}

} // verus!
