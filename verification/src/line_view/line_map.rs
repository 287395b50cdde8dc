//! The chain of filters that every directive of a source passes before it is
//! carried out.

use vstd::prelude::*;

use crate::directive::{directive_models, lemma_multiple_model, Directive, DirectiveModel};
use crate::import::{skip_directives, skipped};
use crate::text::copy_strings;

verus! {

/// What a filter makes of a directive, `depth` frames below the top of the
/// chain.
pub trait DirectiveMapper {
    /// What the filter makes of `line`.
    spec fn mapped(&self, line: DirectiveModel, depth: nat) -> DirectiveModel;

    /// The name of the filter.
    spec fn named(&self) -> Seq<char>;

    fn map(&self, line: Directive, depth: usize) -> (mapped: Directive)
        ensures
            mapped@ == self.mapped(line@, depth as nat),
    ;

    fn name(&self) -> (name: &'static str)
        ensures
            name@ == self.named(),
    ;
}

/// Each of `warnings` as a warning directive.
pub open spec fn replayed(warnings: Seq<Seq<char>>) -> Seq<DirectiveModel> {
    Seq::new(warnings.len(), |i: int| DirectiveModel::Warning(warnings[i]))
}

/// What `else` becomes under a `then` block: the end of that block, a new
/// watch, the warnings once more, and `else` again.
pub open spec fn handed_over(warnings: Seq<Seq<char>>) -> Seq<DirectiveModel> {
    seq![DirectiveModel::EndMap { automatic: false }, DirectiveModel::Watch] + replayed(warnings)
        + seq![DirectiveModel::Else]
}

/// What a `then` block makes of `line`: with no warning watched, `line`; with
/// some, nothing, but for `close` and for an end at the top of the chain.
/// `else` is handed over to a block of its own either way.
pub open spec fn then_mapped(
    warnings: Seq<Seq<char>>,
    line: DirectiveModel,
    depth: nat,
) -> DirectiveModel {
    match line {
        DirectiveModel::Else => DirectiveModel::Multiple(handed_over(warnings)),
        DirectiveModel::Close => line,
        DirectiveModel::EndMap { .. } => if warnings.len() == 0 || depth == 0 {
            line
        } else {
            DirectiveModel::Noop
        },
        _ => if warnings.len() == 0 {
            line
        } else {
            DirectiveModel::Noop
        },
    }
}

/// What an `else` block makes of `line`: with some warning watched, `line`,
/// and the warnings themselves for `display-warnings`; with none, nothing,
/// but for `close` and for an end at the top of the chain.
pub open spec fn else_mapped(
    warnings: Seq<Seq<char>>,
    line: DirectiveModel,
    depth: nat,
) -> DirectiveModel {
    match line {
        DirectiveModel::DisplayWarnings => if warnings.len() == 0 {
            DirectiveModel::Noop
        } else {
            DirectiveModel::Multiple(replayed(warnings))
        },
        DirectiveModel::Close => line,
        DirectiveModel::EndMap { .. } => if warnings.len() > 0 || depth == 0 {
            line
        } else {
            DirectiveModel::Noop
        },
        _ => if warnings.len() > 0 {
            line
        } else {
            DirectiveModel::Noop
        },
    }
}

/// `line`, or nothing in place of a warning.
pub open spec fn without_warnings(line: DirectiveModel) -> DirectiveModel {
    match line {
        DirectiveModel::Warning(_) => DirectiveModel::Noop,
        _ => line,
    }
}

/// `line`, or nothing in place of text.
pub open spec fn without_text(line: DirectiveModel) -> DirectiveModel {
    match line {
        DirectiveModel::Text(_) => DirectiveModel::Noop,
        _ => line,
    }
}

/// Each of `warnings` as a warning directive, behind `list`.
fn replay(list: &mut Vec<Directive>, warnings: &Vec<String>)
    ensures
        directive_models(final(list)@) == directive_models(old(list)@) + replayed(
            warnings.deep_view(),
        ),
{
    let mut i: usize = 0;
    proof {
        assert(directive_models(list@) =~= directive_models(old(list)@) + replayed(
            warnings.deep_view(),
        ).take(0));
    }
    while i < warnings.len()
        invariant
            i <= warnings.len(),
            directive_models(list@) == directive_models(old(list)@) + replayed(
                warnings.deep_view(),
            ).take(i as int),
        decreases warnings.len() - i,
    {
        let ghost before = list@;
        list.push(Directive::Warning(warnings[i].clone()));
        proof {
            assert(list@ == before.push(list@[list@.len() - 1]));
            assert(directive_models(list@) =~= directive_models(before).push(
                DirectiveModel::Warning(warnings@[i as int]@),
            ));
            assert(replayed(warnings.deep_view()).take(i + 1) =~= replayed(
                warnings.deep_view(),
            ).take(i as int).push(DirectiveModel::Warning(warnings@[i as int]@)));
            assert(directive_models(list@) =~= directive_models(old(list)@) + replayed(
                warnings.deep_view(),
            ).take(i + 1));
        }
        i = i + 1;
    }
    proof {
        assert(replayed(warnings.deep_view()).take(i as int) =~= replayed(warnings.deep_view()));
    }
}

/// The filter of a `then` block, with the warnings that were watched before
/// it.
#[derive(Debug, Clone, PartialEq, Eq)]
pub struct Then {
    warnings: Vec<String>,
}

impl View for Then {
    type V = Seq<Seq<char>>;

    closed spec fn view(&self) -> Seq<Seq<char>> {
        self.warnings.deep_view()
    }
}

impl Then {
    pub fn from(value: Vec<String>) -> (then: Self)
        ensures
            then@ == value.deep_view(),
    {
        Self { warnings: value }
    }

    /// A copy of the filter.
    pub fn copy(&self) -> (copy: Self)
        ensures
            copy@ == self@,
    {
        Self { warnings: copy_strings(&self.warnings) }
    }
}

impl DirectiveMapper for Then {
    open spec fn mapped(&self, line: DirectiveModel, depth: nat) -> DirectiveModel {
        then_mapped(self@, line, depth)
    }

    open spec fn named(&self) -> Seq<char> {
        "Then"@
    }

    fn map(&self, line: Directive, depth: usize) -> (mapped: Directive) {
        let none = self.warnings.len() == 0;
        proof {
            assert(self.warnings.deep_view().len() == self.warnings@.len());
        }
        match line {
            Directive::Else => {
                let mut list: Vec<Directive> = Vec::new();
                list.push(Directive::EndMap { automatic: false });
                list.push(Directive::Watch);
                proof {
                    assert(directive_models(list@) =~= seq![
                        DirectiveModel::EndMap { automatic: false },
                        DirectiveModel::Watch,
                    ]);
                }
                replay(&mut list, &self.warnings);
                let ghost before = list@;
                list.push(Directive::Else);
                proof {
                    assert(directive_models(list@) =~= directive_models(before).push(
                        DirectiveModel::Else,
                    ));
                    assert(directive_models(list@) =~= handed_over(self@));
                    lemma_multiple_model(list);
                }
                Directive::Multiple(list)
            },
            Directive::Close => Directive::Close,
            Directive::EndMap { automatic } => if none || depth == 0 {
                Directive::EndMap { automatic }
            } else {
                Directive::Noop
            },
            other => if none {
                other
            } else {
                Directive::Noop
            },
        }
    }

    fn name(&self) -> (name: &'static str) {
        "Then"
    }
}

/// The filter of an `else` block, with the warnings that were watched before
/// it.
#[derive(Debug, Clone, PartialEq, Eq)]
pub struct Else {
    warnings: Vec<String>,
}

impl View for Else {
    type V = Seq<Seq<char>>;

    closed spec fn view(&self) -> Seq<Seq<char>> {
        self.warnings.deep_view()
    }
}

impl Else {
    pub fn from(value: Vec<String>) -> (otherwise: Self)
        ensures
            otherwise@ == value.deep_view(),
    {
        Self { warnings: value }
    }

    /// A copy of the filter.
    pub fn copy(&self) -> (copy: Self)
        ensures
            copy@ == self@,
    {
        Self { warnings: copy_strings(&self.warnings) }
    }
}

impl DirectiveMapper for Else {
    open spec fn mapped(&self, line: DirectiveModel, depth: nat) -> DirectiveModel {
        else_mapped(self@, line, depth)
    }

    open spec fn named(&self) -> Seq<char> {
        "Else"@
    }

    fn map(&self, line: Directive, depth: usize) -> (mapped: Directive) {
        let some = self.warnings.len() > 0;
        proof {
            assert(self.warnings.deep_view().len() == self.warnings@.len());
        }
        match line {
            Directive::DisplayWarnings => if some {
                let mut list: Vec<Directive> = Vec::new();
                proof {
                    assert(directive_models(list@) =~= Seq::empty());
                }
                replay(&mut list, &self.warnings);
                proof {
                    assert(directive_models(list@) =~= replayed(self@));
                    lemma_multiple_model(list);
                }
                Directive::Multiple(list)
            } else {
                Directive::Noop
            },
            Directive::Close => Directive::Close,
            Directive::EndMap { automatic } => if some || depth == 0 {
                Directive::EndMap { automatic }
            } else {
                Directive::Noop
            },
            other => if some {
                other
            } else {
                Directive::Noop
            },
        }
    }

    fn name(&self) -> (name: &'static str) {
        "Else"
    }
}

/// Drops warnings.
pub fn ignore_warnings(directive: Directive) -> (mapped: Directive)
    ensures
        mapped@ == without_warnings(directive@),
{
    match directive {
        Directive::Warning(_) => Directive::Noop,
        other => other,
    }
}

/// Drops text.
pub fn ignore_text(directive: Directive) -> (mapped: Directive)
    ensures
        mapped@ == without_text(directive@),
{
    match directive {
        Directive::Text(_) => Directive::Noop,
        other => other,
    }
}

/// Lets every directive pass as it is.
pub fn directive_debug(line: Directive) -> (mapped: Directive)
    ensures
        mapped@ == line@,
{
    line
}

/// The filters that a chain can hold.
#[derive(Debug, Clone, PartialEq, Eq)]
pub enum Mapper {
    Then(Then),
    Else(Else),
    IgnoreWarnings,
    IgnoreText,
    Debug,
    Lines,
}

/// What a [`Mapper`] stands for.
#[verifier::ext_equal]
pub enum MapperModel {
    Then(Seq<Seq<char>>),
    Else(Seq<Seq<char>>),
    IgnoreWarnings,
    IgnoreText,
    Debug,
    Lines,
}

impl MapperModel {
    /// What the filter makes of `line`, `depth` frames below the top.
    pub open spec fn mapped(self, line: DirectiveModel, depth: nat) -> DirectiveModel {
        match self {
            MapperModel::Then(warnings) => then_mapped(warnings, line, depth),
            MapperModel::Else(warnings) => else_mapped(warnings, line, depth),
            MapperModel::IgnoreWarnings => without_warnings(line),
            MapperModel::IgnoreText => without_text(line),
            MapperModel::Debug => line,
            MapperModel::Lines => skipped(line),
        }
    }

    /// The name of the filter.
    pub open spec fn named(self) -> Seq<char> {
        match self {
            MapperModel::Then(_) => "Then"@,
            MapperModel::Else(_) => "Else"@,
            MapperModel::IgnoreWarnings => "ignore_warnings"@,
            MapperModel::IgnoreText => "ignore_text"@,
            MapperModel::Debug => "directive_debug"@,
            MapperModel::Lines => "skip_directives"@,
        }
    }
}

impl View for Mapper {
    type V = MapperModel;

    open spec fn view(&self) -> MapperModel {
        match self {
            Mapper::Then(then) => MapperModel::Then(then@),
            Mapper::Else(otherwise) => MapperModel::Else(otherwise@),
            Mapper::IgnoreWarnings => MapperModel::IgnoreWarnings,
            Mapper::IgnoreText => MapperModel::IgnoreText,
            Mapper::Debug => MapperModel::Debug,
            Mapper::Lines => MapperModel::Lines,
        }
    }
}

impl Mapper {
    /// A copy of the filter.
    pub fn copy(&self) -> (copy: Self)
        ensures
            copy@ == self@,
    {
        match self {
            Mapper::Then(then) => Mapper::Then(then.copy()),
            Mapper::Else(otherwise) => Mapper::Else(otherwise.copy()),
            Mapper::IgnoreWarnings => Mapper::IgnoreWarnings,
            Mapper::IgnoreText => Mapper::IgnoreText,
            Mapper::Debug => Mapper::Debug,
            Mapper::Lines => Mapper::Lines,
        }
    }
}

impl DirectiveMapper for Mapper {
    open spec fn mapped(&self, line: DirectiveModel, depth: nat) -> DirectiveModel {
        self@.mapped(line, depth)
    }

    open spec fn named(&self) -> Seq<char> {
        self@.named()
    }

    fn map(&self, line: Directive, depth: usize) -> (mapped: Directive) {
        match self {
            Mapper::Then(then) => then.map(line, depth),
            Mapper::Else(otherwise) => otherwise.map(line, depth),
            Mapper::IgnoreWarnings => ignore_warnings(line),
            Mapper::IgnoreText => ignore_text(line),
            Mapper::Debug => directive_debug(line),
            Mapper::Lines => skip_directives(line),
        }
    }

    fn name(&self) -> (name: &'static str) {
        match self {
            Mapper::Then(then) => then.name(),
            Mapper::Else(otherwise) => otherwise.name(),
            Mapper::IgnoreWarnings => "ignore_warnings",
            Mapper::IgnoreText => "ignore_text",
            Mapper::Debug => "directive_debug",
            Mapper::Lines => "skip_directives",
        }
    }
}

/// One frame of a chain: a filter, and whether the frame came by itself or
/// by a directive of the document. An end closes only a frame that came as
/// the end did.
#[derive(Debug, Clone, PartialEq, Eq)]
pub struct Frame {
    mapper: Mapper,
    automatic: bool,
}

/// What a frame stands for.
#[verifier::ext_equal]
pub struct FrameModel {
    pub mapper: MapperModel,
    pub automatic: bool,
}

impl View for Frame {
    type V = FrameModel;

    closed spec fn view(&self) -> FrameModel {
        FrameModel { mapper: self.mapper@, automatic: self.automatic }
    }
}

impl Frame {
    /// What the frame makes of `directive`; a frame that traces puts a copy
    /// of the directive behind `seen`.
    fn map_traced(&self, directive: Directive, depth: usize, seen: &mut Vec<Directive>) -> (mapped:
        Directive)
        ensures
            mapped@ == self@.mapper.mapped(directive@, depth as nat),
            directive_models(final(seen)@) == directive_models(old(seen)@) + shown_by(
                self@.mapper,
                directive@,
            ),
    {
        match &self.mapper {
            Mapper::Debug => {
                let copy = directive.copy();
                seen.push(copy);
                proof {
                    assert(directive_models(seen@) =~= directive_models(old(seen)@).push(
                        directive@,
                    ));
                    assert(directive_models(seen@) =~= directive_models(old(seen)@) + seq![
                        directive@,
                    ]);
                }
            },
            _ => {
                proof {
                    assert(directive_models(seen@) =~= directive_models(old(seen)@)
                        + Seq::<DirectiveModel>::empty());
                }
            },
        }
        self.mapper.map(directive, depth)
    }

    fn copy(&self) -> (copy: Self)
        ensures
            copy@ == self@,
    {
        Frame { mapper: self.mapper.copy(), automatic: self.automatic }
    }
}

/// What the frames of a chain stand for, the frame that came first at index 0.
pub open spec fn frame_models(frames: Seq<Frame>) -> Seq<FrameModel> {
    Seq::new(frames.len(), |i: int| frames[i]@)
}

/// What a chain, the frame that came last at its end, makes of `directive`:
/// the top frame maps it at depth 0, the frame below maps the result at depth
/// 1, and so on down to the first frame.
pub open spec fn applied(
    frames: Seq<FrameModel>,
    directive: DirectiveModel,
    depth: nat,
) -> DirectiveModel
    decreases frames.len(),
{
    if frames.len() == 0 {
        directive
    } else {
        applied(
            frames.drop_last(),
            frames.last().mapper.mapped(directive, depth),
            depth + 1,
        )
    }
}

/// What the frames that trace show: each such frame shows the directive as
/// it comes to it, from the top frame down.
pub open spec fn traced(
    frames: Seq<FrameModel>,
    directive: DirectiveModel,
    depth: nat,
) -> Seq<DirectiveModel>
    decreases frames.len(),
{
    if frames.len() == 0 {
        Seq::empty()
    } else {
        shown_by(frames.last().mapper, directive) + traced(
            frames.drop_last(),
            frames.last().mapper.mapped(directive, depth),
            depth + 1,
        )
    }
}

/// What a frame of `mapper` shows of `directive`: the directive, if the
/// frame is one that traces.
pub open spec fn shown_by(mapper: MapperModel, directive: DirectiveModel) -> Seq<DirectiveModel> {
    if mapper is Debug {
        seq![directive]
    } else {
        Seq::empty()
    }
}

/// A stack of filters with at least one frame.
#[derive(Debug, Clone, PartialEq, Eq)]
pub struct DirectiveMapperChain {
    lower: Vec<Frame>,
    top: Frame,
}

impl View for DirectiveMapperChain {
    type V = Seq<FrameModel>;

    closed spec fn view(&self) -> Seq<FrameModel> {
        frame_models(self.lower@).push(self.top@)
    }
}

impl DirectiveMapperChain {
    /// A chain has a frame.
    pub proof fn lemma_has_frame(&self)
        ensures
            self@.len() > 0,
    {
    }

    /// The chain with one more frame on top of `prev`.
    pub fn new(line_map: Mapper, prev: Option<Self>, automatic: bool) -> (chain: Self)
        ensures
            chain@ == match prev {
                Some(prev) => prev@,
                None => Seq::empty(),
            }.push(FrameModel { mapper: line_map@, automatic }),
    {
        let top = Frame { mapper: line_map, automatic };
        match prev {
            Some(prev) => {
                let mut lower = prev.lower;
                let ghost before = lower@;
                lower.push(prev.top);
                proof {
                    assert(frame_models(lower@) =~= frame_models(before).push(prev.top@));
                }
                Self { lower, top }
            },
            None => {
                let lower: Vec<Frame> = Vec::new();
                proof {
                    assert(frame_models(lower@) =~= Seq::empty());
                }
                Self { lower, top }
            },
        }
    }

    /// The chain below the top frame, if there is one.
    pub fn prev(&self) -> (prev: Option<Self>)
        ensures
            match prev {
                Some(prev) => self@.len() > 1 && prev@ == self@.drop_last(),
                None => self@.len() == 1,
            },
    {
        let n = self.lower.len();
        if n == 0 {
            return None;
        }
        let mut lower: Vec<Frame> = Vec::new();
        let mut i: usize = 0;
        while i < n - 1
            invariant
                n == self.lower.len(),
                n > 0,
                i <= n - 1,
                lower.len() == i,
                forall|j: int| 0 <= j < i ==> lower@[j]@ == self.lower@[j]@,
            decreases n - i,
        {
            lower.push(self.lower[i].copy());
            i = i + 1;
        }
        let top = self.lower[n - 1].copy();
        proof {
            assert(frame_models(lower@).push(top@) =~= frame_models(self.lower@));
            assert(self@.drop_last() =~= frame_models(self.lower@));
        }
        Some(Self { lower, top })
    }

    /// Whether the top frame came by itself.
    pub fn automatic(&self) -> (automatic: bool)
        ensures
            self@.len() > 0,
            automatic == self@.last().automatic,
    {
        self.top.automatic
    }

    /// What the chain makes of `directive`.
    pub fn apply(&self, directive: Directive) -> (mapped: Directive)
        ensures
            mapped@ == applied(self@, directive@, 0),
    {
        let mut seen: Vec<Directive> = Vec::new();
        self.apply_traced(directive, &mut seen)
    }

    /// What the chain makes of `directive`. Behind `seen` stands what the
    /// frames that trace show: the directive as it came to each of them,
    /// from the top frame down.
    pub fn apply_traced(&self, directive: Directive, seen: &mut Vec<Directive>) -> (mapped:
        Directive)
        ensures
            mapped@ == applied(self@, directive@, 0),
            directive_models(final(seen)@) == directive_models(old(seen)@) + traced(
                self@,
                directive@,
                0,
            ),
    {
        let ghost given = directive@;
        let ghost before = directive_models(seen@);
        let mut directive = self.top.map_traced(directive, 0, seen);
        let mut i: usize = self.lower.len();
        proof {
            assert(self@.drop_last() =~= frame_models(self.lower@).take(i as int));
            assert(before + traced(self@, given, 0) =~= directive_models(seen@) + traced(
                frame_models(self.lower@).take(i as int),
                directive@,
                1,
            ));
        }
        while i > 0
            invariant
                i <= self.lower.len(),
                applied(self@, given, 0) == applied(
                    frame_models(self.lower@).take(i as int),
                    directive@,
                    (self.lower.len() - i + 1) as nat,
                ),
                before + traced(self@, given, 0) == directive_models(seen@) + traced(
                    frame_models(self.lower@).take(i as int),
                    directive@,
                    (self.lower.len() - i + 1) as nat,
                ),
            decreases i,
        {
            let ghost frames = frame_models(self.lower@).take(i as int);
            let ghost shown = directive_models(seen@);
            let ghost came = directive@;
            i = i - 1;
            directive = self.lower[i].map_traced(directive, self.lower.len() - i, seen);
            proof {
                assert(frames.drop_last() =~= frame_models(self.lower@).take(i as int));
                assert(frames.last() == self.lower@[i as int]@);
                assert(shown + traced(frames, came, (self.lower.len() - i) as nat)
                    =~= directive_models(seen@) + traced(
                    frames.drop_last(),
                    directive@,
                    (self.lower.len() - i + 1) as nat,
                ));
            }
        }
        proof {
            assert(frame_models(self.lower@).take(0).len() == 0);
            assert(directive_models(seen@) + Seq::<DirectiveModel>::empty() =~= directive_models(
                seen@,
            ));
        }
        directive
    }

    /// A copy of the chain.
    pub fn copy(&self) -> (copy: Self)
        ensures
            copy@ == self@,
    {
        let mut lower: Vec<Frame> = Vec::new();
        let mut i: usize = 0;
        while i < self.lower.len()
            invariant
                i <= self.lower.len(),
                lower.len() == i,
                forall|j: int| 0 <= j < i ==> lower@[j]@ == self.lower@[j]@,
            decreases self.lower.len() - i,
        {
            lower.push(self.lower[i].copy());
            i = i + 1;
        }
        let top = self.top.copy();
        proof {
            assert(frame_models(lower@) =~= frame_models(self.lower@));
        }
        Self { lower, top }
    }

    /// The chains from this one down: this one, the one below its top frame,
    /// and so on.
    pub fn iter(&self) -> (iter: Iter)
        ensures
            iter@ == self@,
    {
        Iter(Some(self.copy()))
    }
}

/// Walks down a chain, frame by frame.
#[derive(Debug)]
pub struct Iter(Option<DirectiveMapperChain>);

impl View for Iter {
    type V = Seq<FrameModel>;

    /// The frames that are left; none once the walk is over.
    closed spec fn view(&self) -> Seq<FrameModel> {
        match self.0 {
            Some(chain) => chain@,
            None => Seq::empty(),
        }
    }
}

impl Iter {
    /// The chain that is left, if the walk is not over; the walk goes on
    /// below its top frame.
    pub fn next(&mut self) -> (next: Option<DirectiveMapperChain>)
        ensures
            match next {
                Some(chain) => chain@ == old(self)@ && chain@.len() > 0 && final(self)@
                    == chain@.drop_last(),
                None => old(self)@.len() == 0 && final(self)@.len() == 0,
            },
    {
        match self.0.take() {
            Some(next) => {
                self.0 = next.prev();
                proof {
                    next.lemma_has_frame();
                    if self.0 is None {
                        assert(next@.drop_last() =~= Seq::empty());
                    }
                }
                Some(next)
            },
            None => None,
        }
    }
}

} // verus!
