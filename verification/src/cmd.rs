//! Commands and the directory that holds them while a document is read.

use std::sync::Arc;
use vstd::prelude::*;

use crate::line_view::line::{LineSourceModel, Source};
use crate::list::reversed;
use crate::text::{copy_string, copy_strings, decimal, to_decimal};

verus! {

/// A command: the program to run, if any, and its arguments.
#[derive(Debug, Clone, PartialEq, Eq)]
pub struct Cmd {
    exe: Option<String>,
    arg: Vec<String>,
}

/// What a [`Cmd`] stands for.
#[verifier::ext_equal]
pub struct CmdModel {
    pub exe: Option<Seq<char>>,
    pub args: Seq<Seq<char>>,
}

impl CmdModel {
    /// The command that runs nothing.
    pub open spec fn empty() -> CmdModel {
        CmdModel { exe: None, args: Seq::empty() }
    }

    /// The command with `exe` for its program.
    pub open spec fn with_exe(self, exe: Seq<char>) -> CmdModel {
        CmdModel { exe: Some(exe), args: self.args }
    }

    /// The command with `arg` behind its arguments.
    pub open spec fn with_arg(self, arg: Seq<char>) -> CmdModel {
        CmdModel { exe: self.exe, args: self.args.push(arg) }
    }
}

impl View for Cmd {
    type V = CmdModel;

    closed spec fn view(&self) -> CmdModel {
        CmdModel {
            exe: match self.exe {
                Some(exe) => Some(exe@),
                None => None,
            },
            args: self.arg.deep_view(),
        }
    }
}

impl Default for Cmd {
    fn default() -> (cmd: Self)
        ensures
            cmd@ == CmdModel::empty(),
    {
        let cmd = Cmd { exe: None, arg: Vec::new() };
        proof {
            assert(cmd.arg.deep_view() =~= Seq::empty());
        }
        cmd
    }
}

impl Cmd {
    /// Sets the program.
    pub fn exe(&mut self, exe: String) -> (this: &mut Self)
        ensures
            this@ == old(self)@.with_exe(exe@),
            *final(self) == *final(this),
    {
        self.exe = Some(exe);
        self
    }

    /// Adds an argument behind those already there.
    pub fn arg(&mut self, arg: String) -> (this: &mut Self)
        ensures
            this@ == old(self)@.with_arg(arg@),
            *final(self) == *final(this),
    {
        self.arg.push(arg);
        proof {
            assert(self.arg.deep_view() =~= old(self).arg.deep_view().push(arg@));
        }
        self
    }

    /// Whether the command has no program, so that running it does nothing.
    pub fn is_empty(&self) -> (empty: bool)
        ensures
            empty == (self@.exe is None),
    {
        self.exe.is_none()
    }

    /// The program, if any.
    pub fn program(&self) -> (program: Option<&String>)
        ensures
            match program {
                Some(program) => self@.exe == Some(program@),
                None => self@.exe is None,
            },
    {
        self.exe.as_ref()
    }

    /// The arguments, in the order in which they were added.
    pub fn arguments(&self) -> (arguments: &Vec<String>)
        ensures
            arguments.deep_view() == self@.args,
    {
        &self.arg
    }
}

/// What it takes to run a command for a line: the program, its arguments,
/// and the two variables by which the program is told of the line.
#[derive(Debug, Clone, PartialEq, Eq)]
pub struct Invocation {
    pub program: String,
    pub args: Vec<String>,
    /// The value of the variable `LINE_VIEW_LINE_NR`: the number of the line.
    pub line_nr: String,
    /// The value of the variable `LINE_VIEW_LINE_SRC`: where the line comes
    /// from.
    pub line_src: String,
}

/// What an [`Invocation`] stands for.
#[verifier::ext_equal]
pub struct InvocationModel {
    pub program: Seq<char>,
    pub args: Seq<Seq<char>>,
    pub line_nr: Seq<char>,
    pub line_src: Seq<char>,
}

impl View for Invocation {
    type V = InvocationModel;

    open spec fn view(&self) -> InvocationModel {
        InvocationModel {
            program: self.program@,
            args: self.args.deep_view(),
            line_nr: self.line_nr@,
            line_src: self.line_src@,
        }
    }
}

/// The variable that tells a program the number of the line.
pub const LINE_NR: &'static str = "LINE_VIEW_LINE_NR";

/// The variable that tells a program where the line comes from.
pub const LINE_SRC: &'static str = "LINE_VIEW_LINE_SRC";

impl CmdModel {
    /// What it takes to run the command for line `line_nr` of `line_src`:
    /// nothing for a command without a program; else the program, the
    /// arguments of the command with `params` behind them, the number of the
    /// line in decimal digits, and the source as it is shown.
    pub open spec fn invocation(
        self,
        line_nr: usize,
        line_src: LineSourceModel,
        params: Seq<Seq<char>>,
    ) -> Option<InvocationModel> {
        match self.exe {
            None => None,
            Some(exe) => Some(
                InvocationModel {
                    program: exe,
                    args: self.args + params,
                    line_nr: decimal(line_nr as nat),
                    line_src: line_src.shown(),
                },
            ),
        }
    }
}

impl Cmd {
    /// What it takes to run the command for line `line_nr` of `line_src`,
    /// with `params` behind the arguments of the command; nothing for a
    /// command without a program.
    pub fn invocation(&self, line_nr: usize, line_src: &Source, params: Vec<String>) -> (invocation:
        Option<Invocation>)
        ensures
            match invocation {
                Some(invocation) => self@.invocation(line_nr, line_src@, params.deep_view()) == Some(
                    invocation@,
                ),
                None => self@.invocation(line_nr, line_src@, params.deep_view()) is None,
            },
    {
        let Some(exe) = &self.exe else {
            return None;
        };
        let mut args = copy_strings(&self.arg);
        let ghost given = params.deep_view();
        let ghost own = args.deep_view();
        let mut rest = reversed(params);
        proof {
            assert(own + given.take(0) =~= own);
        }
        while rest.len() > 0
            invariant
                rest@.len() <= given.len(),
                forall|i: int|
                    0 <= i < rest@.len() ==> (#[trigger] rest@[i])@ == given[given.len() - 1 - i],
                args.deep_view() == own + given.take(given.len() - rest@.len()),
            decreases rest.len(),
        {
            let ghost at = given.len() - rest@.len();
            let ghost before = args.deep_view();
            let param = rest.pop().unwrap();
            proof {
                assert(param@ == given[at]);
            }
            args.push(param);
            proof {
                assert(args.deep_view() =~= before.push(param@));
                assert(given.take(at + 1) =~= given.take(at).push(given[at]));
                assert(args.deep_view() =~= own + given.take(at + 1));
            }
        }
        proof {
            assert(given.take(given.len() as int) =~= given);
        }
        Some(
            Invocation {
                program: copy_string(exe),
                args,
                line_nr: to_decimal(line_nr),
                line_src: line_src.to_string(),
            },
        )
    }
}

/// The place of a command in a [`Directory`]: a scope and a generation in it.
#[derive(Clone, Copy, Debug, PartialEq, Eq, Structural)]
pub struct Handle(usize, usize);

impl View for Handle {
    type V = Handle;

    open spec fn view(&self) -> Handle {
        *self
    }
}

impl Handle {
    /// The scope: one for each source that was opened.
    pub closed spec fn scope(self) -> usize {
        self.0
    }

    /// The generation in the scope, which `clean` counts up.
    pub closed spec fn generation(self) -> usize {
        self.1
    }

    /// The handle of generation `generation` in scope `scope`.
    pub closed spec fn at(scope: usize, generation: usize) -> Handle {
        Handle(scope, generation)
    }

    /// A handle is that of its scope and generation.
    pub proof fn lemma_at(scope: usize, generation: usize)
        ensures
            Self::at(scope, generation).scope() == scope,
            Self::at(scope, generation).generation() == generation,
    {
    }

    /// A handle is known by its scope and generation.
    pub proof fn lemma_is_at(self)
        ensures
            self == Self::at(self.scope(), self.generation()),
    {
    }

    /// Handles of one scope and generation are one handle.
    pub proof fn lemma_same(self, other: Handle)
        requires
            self.scope() == other.scope(),
            self.generation() == other.generation(),
        ensures
            self == other,
    {
    }
}

/// The first item of `entries` under `key`.
spec fn lookup<T>(entries: Seq<(usize, T)>, key: usize) -> Option<T>
    decreases entries.len(),
{
    if entries.len() == 0 {
        None
    } else if entries[0].0 == key {
        Some(entries[0].1)
    } else {
        lookup(entries.drop_first(), key)
    }
}

/// Where the first entry under `key` stands at `at`, that entry is found.
proof fn lemma_lookup_at<T>(entries: Seq<(usize, T)>, key: usize, at: int)
    requires
        0 <= at < entries.len(),
        entries[at].0 == key,
        forall|i: int| 0 <= i < at ==> (#[trigger] entries[i]).0 != key,
    ensures
        lookup(entries, key) == Some(entries[at].1),
    decreases at,
{
    if at > 0 {
        let rest = entries.drop_first();
        assert forall|i: int| 0 <= i < at - 1 implies (#[trigger] rest[i]).0 != key by {
            assert(rest[i] == entries[i + 1]);
        }
        lemma_lookup_at(rest, key, at - 1);
    }
}

/// Where no entry stands under `key`, none is found.
proof fn lemma_lookup_none<T>(entries: Seq<(usize, T)>, key: usize)
    requires
        forall|i: int| 0 <= i < entries.len() ==> (#[trigger] entries[i]).0 != key,
    ensures
        lookup(entries, key) is None,
    decreases entries.len(),
{
    if entries.len() > 0 {
        let rest = entries.drop_first();
        assert forall|i: int| 0 <= i < rest.len() implies (#[trigger] rest[i]).0 != key by {
            assert(rest[i] == entries[i + 1]);
        }
        lemma_lookup_none(rest, key);
    }
}

/// A new item in place of the first entry under a key is found under that
/// key, and every other key finds what it found.
proof fn lemma_lookup_update<T>(entries: Seq<(usize, T)>, at: int, item: T, key: usize)
    requires
        0 <= at < entries.len(),
        forall|i: int| 0 <= i < at ==> (#[trigger] entries[i]).0 != entries[at].0,
    ensures
        lookup(entries.update(at, (entries[at].0, item)), key) == if key == entries[at].0 {
            Some(item)
        } else {
            lookup(entries, key)
        },
    decreases at,
{
    let updated = entries.update(at, (entries[at].0, item));
    if at == 0 {
        assert(updated.drop_first() =~= entries.drop_first());
    } else {
        let rest = entries.drop_first();
        assert forall|i: int| 0 <= i < at - 1 implies (#[trigger] rest[i]).0 != rest[at - 1].0 by {
            assert(rest[i] == entries[i + 1]);
        }
        lemma_lookup_update(rest, at - 1, item, key);
        assert(updated.drop_first() =~= rest.update(at - 1, (rest[at - 1].0, item)));
    }
}

/// An entry added behind the others, under a key that none of them has, is
/// found under that key, and every other key finds what it found.
proof fn lemma_lookup_push<T>(entries: Seq<(usize, T)>, entry: (usize, T), key: usize)
    requires
        lookup(entries, entry.0) is None,
    ensures
        lookup(entries.push(entry), key) == if key == entry.0 {
            Some(entry.1)
        } else {
            lookup(entries, key)
        },
    decreases entries.len(),
{
    if entries.len() == 0 {
        assert(entries.push(entry).drop_first() =~= entries);
    } else {
        lemma_lookup_push(entries.drop_first(), entry, key);
        assert(entries.push(entry).drop_first() =~= entries.drop_first().push(entry));
    }
}

/// The commands of a directory: for each scope, its generations and what
/// stands under each.
pub type Scopes<C> = Seq<Map<usize, C>>;

/// Whether `handle` is one of `scopes`.
pub open spec fn holds<C>(scopes: Scopes<C>, handle: Handle) -> bool {
    &&& handle.scope() < scopes.len()
    &&& scopes[handle.scope() as int].contains_key(handle.generation())
}

/// What stands under `handle`.
pub open spec fn item_at<C>(scopes: Scopes<C>, handle: Handle) -> C
    recommends
        holds(scopes, handle),
{
    scopes[handle.scope() as int][handle.generation()]
}

/// `scopes` with `item` under `handle`.
pub open spec fn with_item<C>(scopes: Scopes<C>, handle: Handle, item: C) -> Scopes<C>
    recommends
        handle.scope() < scopes.len(),
{
    scopes.update(
        handle.scope() as int,
        scopes[handle.scope() as int].insert(handle.generation(), item),
    )
}

/// `scopes` with one more scope, which holds `item` as its generation 0.
pub open spec fn with_scope<C>(scopes: Scopes<C>, item: C) -> Scopes<C> {
    scopes.push(Map::<usize, C>::empty().insert(0, item))
}

/// `scopes` once `generation` was selected in the scope of `handle`: where
/// the scope does not hold that generation yet, it now holds `fresh` there.
pub open spec fn with_selected<C>(
    scopes: Scopes<C>,
    handle: Handle,
    generation: usize,
    fresh: C,
) -> Scopes<C>
    recommends
        handle.scope() < scopes.len(),
{
    if scopes[handle.scope() as int].contains_key(generation) {
        scopes
    } else {
        scopes.update(
            handle.scope() as int,
            scopes[handle.scope() as int].insert(generation, fresh),
        )
    }
}

/// The first generation from `from` on that `scope` does not hold.
pub open spec fn first_free<C>(scope: Map<usize, C>, from: usize) -> usize
    decreases usize::MAX - from,
{
    if scope.contains_key(from) && from < usize::MAX {
        first_free(scope, (from + 1) as usize)
    } else {
        from
    }
}

/// The handle that a clean command gets in the scope of `handle`: that of
/// the first generation that the scope does not hold.
pub open spec fn cleaned<C>(scopes: Scopes<C>, handle: Handle) -> Handle
    recommends
        handle.scope() < scopes.len(),
{
    Handle::at(handle.scope(), first_free(scopes[handle.scope() as int], 0))
}

/// Whether every scope holds no more generations than the machine can
/// count, as every scope of a directory does.
pub open spec fn counted<C>(scopes: Scopes<C>) -> bool {
    forall|scope: int|
        0 <= scope < scopes.len() ==> (#[trigger] scopes[scope]).dom().finite()
            && scopes[scope].dom().len() <= usize::MAX
}

/// A clean command is a new one: its handle was not one of `scopes`.
pub proof fn lemma_cleaned_is_new<C>(scopes: Scopes<C>, handle: Handle)
    requires
        counted(scopes),
        handle.scope() < scopes.len(),
    ensures
        !holds(scopes, cleaned(scopes, handle)),
        cleaned(scopes, handle).scope() == handle.scope(),
{
    lemma_first_free(scopes[handle.scope() as int], 0);
}

/// A set that holds every number below `from` has at least `from` members.
pub proof fn lemma_held_are_counted(held: Set<usize>, from: usize)
    requires
        held.finite(),
        forall|k: usize| k < from ==> held.contains(k),
    ensures
        from <= held.len(),
    decreases from,
{
    if from > 0 {
        let last = (from - 1) as usize;
        assert(held.contains(last));
        lemma_held_are_counted(held.remove(last), last);
    }
}

/// The first free generation of a scope that holds no more generations than
/// the machine can count is one that the scope does not hold, and the scope
/// holds every generation before it.
pub proof fn lemma_first_free<C>(scope: Map<usize, C>, from: usize)
    requires
        scope.dom().finite(),
        scope.dom().len() <= usize::MAX,
        forall|k: usize| k < from ==> scope.contains_key(k),
    ensures
        !scope.contains_key(first_free(scope, from)),
        forall|k: usize| k < first_free(scope, from) ==> scope.contains_key(k),
    decreases usize::MAX - from,
{
    if scope.contains_key(from) {
        if from < usize::MAX {
            lemma_first_free(scope, (from + 1) as usize);
        } else {
            // every generation is held: more than the scope has
            let others = scope.dom().remove(from);
            lemma_held_are_counted(others, from);
        }
    }
}

/// The generations that the entries of a scope hold are no more than the
/// entries.
proof fn lemma_scope_is_counted<T: View>(entries: Seq<(usize, T)>)
    ensures
        scope_model(entries).dom().finite(),
        scope_model(entries).dom().len() <= entries.len(),
{
    let keys = Seq::new(entries.len(), |i: int| entries[i].0);
    vstd::seq_lib::seq_to_set_is_finite(keys);
    keys.lemma_cardinality_of_set();
    assert forall|key: usize| scope_model(entries).dom().contains(key) implies keys.to_set().contains(
        key,
    ) by {
        let at = lemma_lookup_found(entries, key);
        assert(keys[at] == key);
    }
    vstd::set_lib::lemma_len_subset(scope_model(entries).dom(), keys.to_set());
}

/// What is found stands in the entries, under its key.
proof fn lemma_lookup_found<T>(entries: Seq<(usize, T)>, key: usize) -> (at: int)
    requires
        lookup(entries, key) is Some,
    ensures
        0 <= at < entries.len(),
        entries[at].0 == key,
    decreases entries.len(),
{
    if entries[0].0 == key {
        0
    } else {
        lemma_lookup_found(entries.drop_first(), key) + 1
    }
}

/// What the entries of one scope stand for: each generation with what its
/// first entry stands for.
spec fn scope_model<T: View>(entries: Seq<(usize, T)>) -> Map<usize, T::V> {
    Map::new(|key: usize| lookup(entries, key) is Some, |key: usize| lookup(entries, key)->0@)
}

/// Commands by handle. Every handle that the directory gave out keeps its
/// command as long as the directory lives.
///
/// The directory is a list of scopes, and a scope a list of generations
/// with their items, in the order in which they came: a handle is found by
/// its two numbers, and its item can be handed out to be changed in place.
#[derive(Debug, Clone)]
pub struct Directory<T> {
    contents: Vec<Vec<(usize, T)>>,
}

impl<T: View> View for Directory<T> {
    type V = Scopes<T::V>;

    closed spec fn view(&self) -> Scopes<T::V> {
        Seq::new(self.contents@.len(), |scope: int| scope_model(self.contents@[scope]@))
    }
}

impl<T: View> Directory<T> {
    /// Whether `handle` is one of the directory.
    pub open spec fn contains(&self, handle: Handle) -> bool {
        holds(self@, handle)
    }

    /// The number of scopes.
    pub fn len(&self) -> (len: usize)
        ensures
            len == self@.len(),
    {
        self.contents.len()
    }

    /// The index in scope `scope` of the first entry of generation
    /// `generation`.
    fn position(&self, scope: usize, generation: usize) -> (at: Option<usize>)
        requires
            scope < self.contents@.len(),
        ensures
            match at {
                Some(at) => {
                    &&& at < self.contents@[scope as int]@.len()
                    &&& self.contents@[scope as int]@[at as int].0 == generation
                    &&& forall|i: int|
                        0 <= i < at ==> (#[trigger] self.contents@[scope as int]@[i]).0
                            != generation
                    &&& lookup(self.contents@[scope as int]@, generation) == Some(
                        self.contents@[scope as int]@[at as int].1,
                    )
                },
                None => lookup(self.contents@[scope as int]@, generation) is None,
            },
    {
        let entries = &self.contents[scope];
        let mut at: usize = 0;
        while at < entries.len()
            invariant
                scope < self.contents@.len(),
                entries@ == self.contents@[scope as int]@,
                at <= entries.len(),
                forall|i: int| 0 <= i < at ==> (#[trigger] entries@[i]).0 != generation,
            decreases entries.len() - at,
        {
            if entries[at].0 == generation {
                proof {
                    lemma_lookup_at(entries@, generation, at as int);
                }
                return Some(at);
            }
            at = at + 1;
        }
        proof {
            lemma_lookup_none(entries@, generation);
        }
        None
    }

    /// The item under `handle`, if the handle is one of the directory.
    pub fn get(&self, handle: Handle) -> (item: Option<&T>)
        ensures
            match item {
                Some(item) => self.contains(handle) && item@ == item_at(self@, handle),
                None => !self.contains(handle),
            },
    {
        if handle.0 >= self.contents.len() {
            return None;
        }
        match self.position(handle.0, handle.1) {
            Some(at) => Some(&self.contents[handle.0][at].1),
            None => None,
        }
    }

    /// The item under `handle`, to be changed in place, if the handle is one
    /// of the directory. Nothing else in the directory changes.
    pub fn get_mut(&mut self, handle: Handle) -> (item: Option<&mut T>)
        ensures
            match item {
                Some(item) => {
                    &&& old(self).contains(handle)
                    &&& item@ == item_at(old(self)@, handle)
                    &&& final(self)@ == with_item(old(self)@, handle, final(item)@)
                },
                None => !old(self).contains(handle) && final(self)@ == old(self)@,
            },
    {
        if handle.0 >= self.contents.len() {
            return None;
        }
        match self.position(handle.0, handle.1) {
            Some(at) => {
                let item = &mut self.contents[handle.0][at].1;
                proof {
                    let entries = old(self).contents@[handle.0 as int]@;
                    let changed = entries.update(at as int, (handle.1, *final(item)));
                    assert forall|key: usize|
                        lookup(changed, key) == if key == handle.1 {
                            Some(*final(item))
                        } else {
                            lookup(entries, key)
                        } by {
                        lemma_lookup_update(entries, at as int, *final(item), key);
                    }
                    assert(scope_model(changed) =~= scope_model(entries).insert(
                        handle.1,
                        final(item)@,
                    ));
                }
                Some(item)
            },
            None => None,
        }
    }

    /// The item under `handle`, which is one of the directory.
    pub fn index(&self, handle: Handle) -> (item: &T)
        requires
            self.contains(handle),
        ensures
            item@ == item_at(self@, handle),
    {
        let at = self.position(handle.0, handle.1).unwrap();
        &self.contents[handle.0][at].1
    }

    /// The item under `handle`, which is one of the directory, to be changed
    /// in place. Nothing else in the directory changes.
    pub fn index_mut(&mut self, handle: Handle) -> (item: &mut T)
        requires
            old(self).contains(handle),
        ensures
            item@ == item_at(old(self)@, handle),
            final(self)@ == with_item(old(self)@, handle, final(item)@),
    {
        self.get_mut(handle).unwrap()
    }
}

impl Directory<Cmd> {
    /// A directory without commands.
    pub fn new() -> (directory: Self)
        ensures
            directory@ == Scopes::<CmdModel>::empty(),
    {
        let directory = Self { contents: Vec::new() };
        proof {
            assert(directory@ =~= Scopes::<CmdModel>::empty());
        }
        directory
    }

    /// Opens a scope with an empty command as its generation 0, and gives the
    /// handle of that command.
    pub fn new_handle(&mut self) -> (handle: Handle)
        ensures
            handle.scope() == old(self)@.len(),
            handle.generation() == 0,
            final(self)@ == with_scope(old(self)@, CmdModel::empty()),
    {
        let mut scope: Vec<(usize, Cmd)> = Vec::new();
        scope.push((0, Cmd::default()));
        self.contents.push(scope);
        proof {
            let entries = seq![(0usize, scope@[0].1)];
            assert(scope@ =~= entries);
            assert forall|key: usize|
                lookup(entries, key) == if key == 0 {
                    Some(entries[0].1)
                } else {
                    None
                } by {
                assert(entries.drop_first() =~= Seq::empty());
                assert(lookup(entries.drop_first(), key) is None);
            }
            assert(scope_model(entries) =~= Map::<usize, CmdModel>::empty().insert(
                0,
                CmdModel::empty(),
            ));
            assert(final(self)@ =~= with_scope(old(self)@, CmdModel::empty()));
        }
        Handle(self.contents.len() - 1, 0)
    }

    /// The handle of generation `index` in the scope of `handle`, which is a
    /// handle of the directory. A generation that the scope does not hold yet
    /// starts with an empty command.
    pub fn select_command(&mut self, handle: Handle, index: usize) -> (selected: Handle)
        requires
            old(self).contains(handle),
        ensures
            selected.scope() == handle.scope(),
            selected.generation() == index,
            final(self)@ == with_selected(old(self)@, handle, index, CmdModel::empty()),
            final(self).contains(selected),
    {
        if self.position(handle.0, index).is_none() {
            let ghost entries = self.contents@[handle.0 as int]@;
            let cmd = Cmd::default();
            self.contents[handle.0].push((index, cmd));
            proof {
                let entry = (index, cmd);
                assert(self.contents@[handle.0 as int]@ == entries.push(entry));
                assert forall|key: usize|
                    lookup(entries.push(entry), key) == if key == index {
                        Some(cmd)
                    } else {
                        lookup(entries, key)
                    } by {
                    lemma_lookup_push(entries, entry, key);
                }
                assert(scope_model(entries.push(entry)) =~= scope_model(entries).insert(
                    index,
                    CmdModel::empty(),
                ));
                assert(final(self)@ =~= with_selected(
                    old(self)@,
                    handle,
                    index,
                    CmdModel::empty(),
                ));
            }
        }
        Handle(handle.0, index)
    }

    /// A clean command in the scope of `handle`, which is a handle of the
    /// directory: an empty command under a generation that the scope did not
    /// hold, the first such. Every handle that was there keeps its command.
    pub fn clean_command(&mut self, handle: Handle) -> (clean: Handle)
        requires
            old(self).contains(handle),
        ensures
            clean == cleaned(old(self)@, handle),
            !holds(old(self)@, clean),
            final(self)@ == with_item(old(self)@, clean, CmdModel::empty()),
            item_at(final(self)@, clean) == CmdModel::empty(),
    {
        let ghost entries = self.contents@[handle.0 as int]@;
        let ghost scope = scope_model(entries);
        let held = self.contents[handle.0].len();
        let mut generation: usize = 0;
        while self.position(handle.0, generation).is_some()
            invariant
                *self == *old(self),
                handle.0 < self.contents@.len(),
                entries == self.contents@[handle.0 as int]@,
                scope == scope_model(entries),
                held == entries.len(),
                forall|k: usize| k < generation ==> scope.contains_key(k),
                first_free(scope, 0) == first_free(scope, generation),
            decreases usize::MAX - generation,
        {
            proof {
                lemma_scope_is_counted(entries);
                assert forall|k: usize| k < generation + 1 implies scope.dom().contains(k) by {
                    if k < generation {
                        assert(scope.contains_key(k));
                    }
                }
                if generation == usize::MAX {
                    lemma_held_are_counted(scope.dom().remove(generation), generation);
                }
            }
            generation = generation + 1;
        }
        let cmd = Cmd::default();
        self.contents[handle.0].push((generation, cmd));
        let clean = Handle(handle.0, generation);
        proof {
            let entry = (generation, cmd);
            assert(self.contents@[handle.0 as int]@ == entries.push(entry));
            assert forall|key: usize|
                lookup(entries.push(entry), key) == if key == generation {
                    Some(cmd)
                } else {
                    lookup(entries, key)
                } by {
                lemma_lookup_push(entries, entry, key);
            }
            assert(scope_model(entries.push(entry)) =~= scope.insert(
                generation,
                CmdModel::empty(),
            ));
            assert(old(self)@[handle.0 as int] == scope);
            assert(final(self)@ =~= with_item(old(self)@, clean, CmdModel::empty()));
        }
        clean
    }

    /// The same commands under the same handles, each behind a shared
    /// pointer, for the lines of the finished document to hold.
    pub fn map_to_arc(self) -> (shared: Directory<Arc<Cmd>>)
        ensures
            shared@ == self@,
    {
        let ghost all = self.contents@;
        let mut rest = reversed(self.contents);
        let mut shared: Vec<Vec<(usize, Arc<Cmd>)>> = Vec::new();
        while rest.len() > 0
            invariant
                rest@.len() <= all.len(),
                forall|i: int| 0 <= i < rest@.len() ==> rest@[i] == all[all.len() - 1 - i],
                shared@.len() == all.len() - rest@.len(),
                forall|i: int|
                    0 <= i < shared@.len() ==> scope_model(#[trigger] shared@[i]@) == scope_model(
                        all[i]@,
                    ),
            decreases rest.len(),
        {
            let scope = rest.pop().unwrap();
            shared.push(share_scope(scope));
        }
        let shared = Directory { contents: shared };
        proof {
            assert(shared@ =~= self@);
        }
        shared
    }
}

/// The entries of one scope, each command behind a shared pointer.
fn share_scope(scope: Vec<(usize, Cmd)>) -> (shared: Vec<(usize, Arc<Cmd>)>)
    ensures
        scope_model(shared@) == scope_model(scope@),
{
    let ghost all = scope@;
    let mut rest = reversed(scope);
    let mut shared: Vec<(usize, Arc<Cmd>)> = Vec::new();
    while rest.len() > 0
        invariant
            rest@.len() <= all.len(),
            forall|i: int| 0 <= i < rest@.len() ==> rest@[i] == all[all.len() - 1 - i],
            shared@.len() == all.len() - rest@.len(),
            forall|i: int|
                0 <= i < shared@.len() ==> (#[trigger] shared@[i]).0 == all[i].0 && shared@[i].1@
                    == all[i].1@,
        decreases rest.len(),
    {
        let (generation, cmd) = rest.pop().unwrap();
        shared.push((generation, Arc::new(cmd)));
    }
    proof {
        assert forall|key: usize|
            (#[trigger] lookup(shared@, key) is Some <==> lookup(all, key) is Some) && (lookup(
                shared@,
                key,
            ) is Some ==> lookup(shared@, key)->0@ == lookup(all, key)->0@) by {
            lemma_lookup_model_same(shared@, all, key);
        }
        assert(scope_model(shared@) =~= scope_model(all));
    }
    shared
}

/// What the first entry under `key` stands for.
spec fn lookup_model<T: View>(entries: Seq<(usize, T)>, key: usize) -> Option<T::V> {
    match lookup(entries, key) {
        Some(item) => Some(item@),
        None => None,
    }
}

/// Entries that agree, one by one, in their keys and in what they stand for
/// find the same under every key.
proof fn lemma_lookup_model_same<T: View, U: View<V = T::V>>(
    left: Seq<(usize, T)>,
    right: Seq<(usize, U)>,
    key: usize,
)
    requires
        left.len() == right.len(),
        forall|i: int|
            0 <= i < left.len() ==> (#[trigger] left[i]).0 == right[i].0 && left[i].1@
                == right[i].1@,
    ensures
        lookup_model(left, key) == lookup_model(right, key),
    decreases left.len(),
{
    if left.len() > 0 {
        assert(left[0].0 == right[0].0);
        let l = left.drop_first();
        let r = right.drop_first();
        assert forall|i: int| 0 <= i < l.len() implies (#[trigger] l[i]).0 == r[i].0 && l[i].1@
            == r[i].1@ by {
            assert(l[i] == left[i + 1]);
            assert(r[i] == right[i + 1]);
        }
        lemma_lookup_model_same(l, r, key);
    }
}

} // verus!
