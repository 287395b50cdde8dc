//! Inclusion of other files: the three kinds and what each decides once the
//! file has been looked for.

use vstd::prelude::*;

use crate::cmd::{with_scope, Cmd, CmdModel, Directory, Handle, Scopes};
use crate::directive::{Directive, DirectiveModel};
use crate::line_view::directive_source::StreamModel;
use crate::line_view::line_map::{DirectiveMapperChain, FrameModel, Mapper, MapperModel};
use crate::line_view::source::{Source, SourceModel};
use crate::path_set::{path_sets, PathSet};

verus! {

/// How a file is pulled in.
#[derive(Debug, Clone, Copy, PartialEq, Eq, Structural)]
pub enum ImportKind {
    /// Read in the context of the including file; a path is read once in each
    /// such context.
    Source,
    /// Read in a context of its own; a path is imported once in a document.
    Import,
    /// Read for its text alone, as often as it is named.
    Lines,
}

/// A file to pull in and how.
#[derive(Debug, Clone, PartialEq, Eq)]
pub struct Import {
    file: String,
    kind: ImportKind,
}

/// What an [`Import`] stands for.
#[verifier::ext_equal]
pub struct ImportModel {
    pub file: Seq<char>,
    pub kind: ImportKind,
}

impl View for Import {
    type V = ImportModel;

    closed spec fn view(&self) -> ImportModel {
        ImportModel { file: self.file@, kind: self.kind }
    }
}

impl Import {
    pub fn new_import(path: &str) -> (import: Self)
        ensures
            import@ == (ImportModel { file: path@, kind: ImportKind::Import }),
    {
        Self { file: path.to_owned(), kind: ImportKind::Import }
    }

    pub fn new_source(path: &str) -> (import: Self)
        ensures
            import@ == (ImportModel { file: path@, kind: ImportKind::Source }),
    {
        Self { file: path.to_owned(), kind: ImportKind::Source }
    }

    pub fn new_lines(path: &str) -> (import: Self)
        ensures
            import@ == (ImportModel { file: path@, kind: ImportKind::Lines }),
    {
        Self { file: path.to_owned(), kind: ImportKind::Lines }
    }

    /// A copy of the inclusion.
    pub fn copy(&self) -> (copy: Self)
        ensures
            copy@ == self@,
    {
        Self { file: self.file.clone(), kind: self.kind }
    }

    /// The path as it was written.
    pub fn file(&self) -> (file: &String)
        ensures
            file@ == self@.file,
    {
        &self.file
    }

    /// The kind of inclusion.
    pub fn kind(&self) -> (kind: ImportKind)
        ensures
            kind == self@.kind,
    {
        self.kind
    }
}

/// A file that was found and opened for an inclusion: its path with every
/// link resolved, the directory that it lies in, and the reader of its lines.
#[derive(Debug)]
pub struct Opened<R> {
    pub path: String,
    pub dir: String,
    pub read: R,
}

/// What an [`Opened`] stands for.
#[verifier::ext_equal]
pub struct OpenedModel {
    pub path: Seq<char>,
    pub dir: Seq<char>,
}

impl<R> View for Opened<R> {
    type V = OpenedModel;

    open spec fn view(&self) -> OpenedModel {
        OpenedModel { path: self.path@, dir: self.dir@ }
    }
}

/// What a file that may not have been found stands for.
pub open spec fn opened_model<R>(opened: Option<Opened<R>>) -> Option<OpenedModel> {
    match opened {
        Some(opened) => Some(opened@),
        None => None,
    }
}

/// What the sources of a document share: the commands, the paths that were
/// imported, and the sets of paths that were read in each context.
#[verifier::ext_equal]
pub struct Tables {
    pub commands: Scopes<CmdModel>,
    pub imported: Set<Seq<char>>,
    pub sourced: Seq<Set<Seq<char>>>,
}

/// What comes of an inclusion: the new source where the file is read, and the
/// tables as they are left.
#[verifier::ext_equal]
pub struct Included {
    pub source: Option<SourceModel>,
    pub tables: Tables,
}

/// The warning for a file that is not read.
pub open spec fn not_included(file: Seq<char>) -> Seq<char> {
    "could not source/import/lines "@ + file
}

impl Tables {
    /// The tables once a source was opened: it has a scope of commands.
    pub open spec fn with_source(self) -> Tables {
        Tables {
            commands: with_scope(self.commands, CmdModel::empty()),
            imported: self.imported,
            sourced: self.sourced,
        }
    }

    /// The tables with one more set of paths, an empty one.
    pub open spec fn with_context(self) -> Tables {
        Tables {
            commands: self.commands,
            imported: self.imported,
            sourced: self.sourced.push(Set::empty()),
        }
    }

    /// What `import` does with a file. A file that was found is read in a
    /// context of its own, unless its path was imported before: a path is
    /// imported once.
    pub open spec fn import(self, opened: Option<OpenedModel>) -> Included {
        match opened {
            None => Included { source: None, tables: self },
            Some(opened) => if self.imported.contains(opened.path) {
                Included { source: None, tables: self.with_source() }
            } else {
                Included {
                    source: Some(
                        SourceModel::opened(
                            opened.path,
                            opened.dir,
                            self.sourced.len() as usize,
                            self.commands,
                            StreamModel::fresh(),
                        ),
                    ),
                    tables: Tables {
                        commands: with_scope(self.commands, CmdModel::empty()),
                        imported: self.imported.insert(opened.path),
                        sourced: self.sourced.push(Set::empty()),
                    },
                }
            },
        }
    }

    /// What `source` does with a file. A file that was found is read in the
    /// context of the source `parent`, with the command of `parent`, unless
    /// its path was read in that context before.
    pub open spec fn source(self, opened: Option<OpenedModel>, parent: SourceModel) -> Included
        recommends
            parent.sourced < self.sourced.len(),
    {
        match opened {
            None => Included { source: None, tables: self },
            Some(opened) => if self.sourced[parent.sourced as int].contains(opened.path) {
                Included { source: None, tables: self.with_source() }
            } else {
                Included {
                    source: Some(
                        SourceModel {
                            read: StreamModel::fresh(),
                            path: opened.path,
                            cmd: parent.cmd,
                            sourced: parent.sourced,
                            dir: opened.dir,
                            warning_watcher: crate::line_view::source::WatchModel::Sleeping,
                            line_map: None,
                        },
                    ),
                    tables: Tables {
                        commands: with_scope(self.commands, CmdModel::empty()),
                        imported: self.imported,
                        sourced: self.sourced.update(
                            parent.sourced as int,
                            self.sourced[parent.sourced as int].insert(opened.path),
                        ),
                    },
                }
            },
        }
    }

    /// What `lines` does with a file. A file that was found is read, however
    /// often it was read before, with the command of the source `parent` and
    /// under a filter that lets only its lines pass.
    pub open spec fn lines(self, opened: Option<OpenedModel>, parent: SourceModel) -> Included {
        match opened {
            None => Included { source: None, tables: self },
            Some(opened) => Included {
                source: Some(
                    SourceModel {
                        read: StreamModel::fresh(),
                        path: opened.path,
                        cmd: parent.cmd,
                        sourced: self.sourced.len() as usize,
                        dir: opened.dir,
                        warning_watcher: crate::line_view::source::WatchModel::Sleeping,
                        line_map: Some(
                            seq![FrameModel { mapper: MapperModel::Lines, automatic: true }],
                        ),
                    },
                ),
                tables: self.with_source().with_context(),
            },
        }
    }

    /// What an inclusion of kind `kind` does with a file.
    pub open spec fn inclusion(
        self,
        kind: ImportKind,
        opened: Option<OpenedModel>,
        parent: SourceModel,
    ) -> Included {
        match kind {
            ImportKind::Source => self.source(opened, parent),
            ImportKind::Import => self.import(opened),
            ImportKind::Lines => self.lines(opened, parent),
        }
    }
}

/// What the result of an inclusion stands for.
pub open spec fn import_result<R>(result: Result<Source<R>, Directive>) -> Result<
    SourceModel,
    DirectiveModel,
> {
    match result {
        Ok(source) => Ok(source@),
        Err(directive) => Err(directive@),
    }
}

/// What a source that may be missing stands for.
pub open spec fn source_model<R>(source: Option<Source<R>>) -> Option<SourceModel> {
    match source {
        Some(source) => Some(source@),
        None => None,
    }
}

/// The tables that the parts of a document make up.
pub open spec fn tables_of(
    cmd_directory: Directory<Cmd>,
    imported: PathSet,
    sourced: Vec<PathSet>,
) -> Tables {
    Tables { commands: cmd_directory@, imported: imported@, sourced: path_sets(sourced@) }
}

impl Import {
    /// Decides on the inclusion once the file was looked for: `opened` is the
    /// file that was found, or nothing. The new source comes back where the
    /// file is read, and else the warning that takes the place of the
    /// directive.
    pub fn perform_import<R>(
        self,
        parent: Source<R>,
        imported: &mut PathSet,
        sourced: &mut Vec<PathSet>,
        cmd_directory: &mut Directory<Cmd>,
        opened: Option<Opened<R>>,
    ) -> (result: Result<Source<R>, Directive>)
        requires
            parent.sourced < old(sourced).len(),
        ensures
            ({
                let included = tables_of(*old(cmd_directory), *old(imported), *old(sourced)).inclusion(
                    self@.kind,
                    opened_model(opened),
                    parent@,
                );
                &&& tables_of(*final(cmd_directory), *final(imported), *final(sourced))
                    == included.tables
                &&& import_result(result) == match included.source {
                    Some(source) => Ok::<SourceModel, DirectiveModel>(source),
                    None => Err(DirectiveModel::Warning(not_included(self@.file))),
                }
                &&& result matches Ok(source) ==> opened is Some && source.read.inner() == Some(
                    opened->0.read,
                )
            }),
    {
        let Self { file, kind } = self;
        let source = match kind {
            ImportKind::Source => source(opened, parent.cmd, parent.sourced, sourced, cmd_directory),
            ImportKind::Import => import(opened, imported, sourced, cmd_directory),
            ImportKind::Lines => lines(opened, parent.cmd, sourced, cmd_directory),
        };
        match source {
            Some(source) => Ok(source),
            None => Err(
                Directive::Warning(
                    String::from_str("could not source/import/lines ").concat(file.as_str()),
                ),
            ),
        }
    }
}

/// Reads a file in a context of its own, unless its path was imported
/// before.
pub fn import<R>(
    opened: Option<Opened<R>>,
    imported: &mut PathSet,
    sourced: &mut Vec<PathSet>,
    cmd_directory: &mut Directory<Cmd>,
) -> (source: Option<Source<R>>)
    ensures
        ({
            let included = tables_of(*old(cmd_directory), *old(imported), *old(sourced)).import(
                opened_model(opened),
            );
            &&& tables_of(*final(cmd_directory), *final(imported), *final(sourced))
                == included.tables
            &&& source_model(source) == included.source
            &&& source matches Some(source) ==> opened is Some && source.read.inner() == Some(
                opened->0.read,
            )
        }),
{
    let Some(opened) = opened else {
        return None;
    };
    let Opened { path, dir, read } = opened;
    // the path is kept for the set: the source takes its own copy
    let source = Source::open(path.clone(), dir, read, sourced.len(), cmd_directory);
    if imported.contains(path.as_str()) {
        return None;
    }
    imported.insert(path);
    let ghost before = sourced@;
    sourced.push(PathSet::new());
    proof {
        assert(path_sets(sourced@) =~= path_sets(before).push(Set::empty()));
    }
    Some(source)
}

/// Reads a file in the context whose set of paths is that of index
/// `context`, with the command `cmd`, unless its path was read in that
/// context before.
pub fn source<R>(
    opened: Option<Opened<R>>,
    cmd: Handle,
    context: usize,
    sourced: &mut Vec<PathSet>,
    cmd_directory: &mut Directory<Cmd>,
) -> (source: Option<Source<R>>)
    requires
        context < old(sourced).len(),
    ensures
        final(sourced).len() == old(sourced).len(),
        final(cmd_directory)@ == if opened is Some {
            with_scope(old(cmd_directory)@, CmdModel::empty())
        } else {
            old(cmd_directory)@
        },
        match opened {
            None => source is None && path_sets(final(sourced)@) == path_sets(old(sourced)@),
            Some(opened) => {
                let paths = path_sets(old(sourced)@)[context as int];
                if paths.contains(opened.path@) {
                    source is None && path_sets(final(sourced)@) == path_sets(old(sourced)@)
                } else {
                    &&& source matches Some(source)
                    &&& source@ == (SourceModel {
                        read: StreamModel::fresh(),
                        path: opened.path@,
                        cmd,
                        sourced: context,
                        dir: opened.dir@,
                        warning_watcher: crate::line_view::source::WatchModel::Sleeping,
                        line_map: None,
                    })
                    &&& source.read.inner() == Some(opened.read)
                    &&& path_sets(final(sourced)@) == path_sets(old(sourced)@).update(
                        context as int,
                        paths.insert(opened.path@),
                    )
                }
            },
        },
{
    let Some(opened) = opened else {
        return None;
    };
    let Opened { path, dir, read } = opened;
    let mut source = Source::open(path, dir, read, context, cmd_directory);
    // what is read in the context of a source keeps the command of that source
    source.cmd = cmd;
    let ghost before = sourced@;
    let added = sourced[context].check_and_insert(source.path.as_str());
    if !added {
        proof {
            assert(before[context as int]@.insert(source.path@) =~= before[context as int]@);
            assert(path_sets(sourced@) =~= path_sets(before));
        }
        return None;
    }
    proof {
        assert(path_sets(sourced@) =~= path_sets(before).update(
            context as int,
            before[context as int]@.insert(source.path@),
        ));
    }
    Some(source)
}

/// Reads a file for its lines alone, with the command `cmd`.
pub fn lines<R>(
    opened: Option<Opened<R>>,
    cmd: Handle,
    sourced: &mut Vec<PathSet>,
    cmd_directory: &mut Directory<Cmd>,
) -> (source: Option<Source<R>>)
    ensures
        match opened {
            None => {
                &&& source is None
                &&& final(cmd_directory)@ == old(cmd_directory)@
                &&& path_sets(final(sourced)@) == path_sets(old(sourced)@)
            },
            Some(opened) => {
                &&& source matches Some(source)
                &&& source@ == (SourceModel {
                    read: StreamModel::fresh(),
                    path: opened.path@,
                    cmd,
                    sourced: old(sourced).len(),
                    dir: opened.dir@,
                    warning_watcher: crate::line_view::source::WatchModel::Sleeping,
                    line_map: Some(
                        seq![FrameModel { mapper: MapperModel::Lines, automatic: true }],
                    ),
                })
                &&& source.read.inner() == Some(opened.read)
                &&& final(cmd_directory)@ == with_scope(old(cmd_directory)@, CmdModel::empty())
                &&& path_sets(final(sourced)@) == path_sets(old(sourced)@).push(Set::empty())
            },
        },
{
    let Some(opened) = opened else {
        return None;
    };
    let Opened { path, dir, read } = opened;
    // such a file can be read however often: nothing in it pulls in a file
    let mut source = Source::open(path, dir, read, sourced.len(), cmd_directory);
    source.cmd = cmd;
    let chain = DirectiveMapperChain::new(Mapper::Lines, None, true);
    proof {
        assert(chain@ =~= seq![FrameModel { mapper: MapperModel::Lines, automatic: true }]);
    }
    source.line_map = Some(chain);
    let ghost before = sourced@;
    sourced.push(PathSet::new());
    proof {
        assert(path_sets(sourced@) =~= path_sets(before).push(Set::empty()));
    }
    Some(source)
}

/// `parsed` where it closes the source, is an empty line or is text; nothing
/// in place of anything else.
pub open spec fn skipped(parsed: DirectiveModel) -> DirectiveModel {
    match parsed {
        DirectiveModel::Close | DirectiveModel::Empty | DirectiveModel::Text(_) => parsed,
        _ => DirectiveModel::Noop,
    }
}

/// The filter of a file that is read for its lines alone: only the end of
/// the source, empty lines and text pass.
pub fn skip_directives(parsed: Directive) -> (mapped: Directive)
    ensures
        mapped@ == skipped(parsed@),
{
    match parsed {
        Directive::Close => Directive::Close,
        Directive::Empty => Directive::Empty,
        Directive::Text(text) => Directive::Text(text),
        _ => Directive::Noop,
    }
}

} // verus!
