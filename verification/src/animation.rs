//! Adobe Animate timelines: labels, layers, symbols, and their flattening into
//! an ordered list of atlas draw parts.
//!
//! Each element carries a `transform` handle: the caller keeps the element's
//! affine matrix and colour transform under that handle, and composes them along
//! the `transforms` path of each draw part, outermost first.

use vstd::prelude::*;
use crate::text::{chars_of, str_eq};

verus! {

#[derive(Debug, Clone, PartialEq, Eq)]
pub struct AnimationLabel {
    pub name: String,
    pub index: u32,
    pub duration: u32,
}

#[derive(Debug, Clone, PartialEq, Eq)]
pub struct AtlasInstance {
    pub frame_name: String,
}

#[derive(Debug, Clone, PartialEq, Eq)]
pub struct SymbolInstance {
    pub symbol_name: String,
    pub first_frame: u32,
    pub loop_mode: Option<String>,
}

#[derive(Debug, Clone, PartialEq, Eq)]
pub enum ElementKind {
    Symbol(SymbolInstance),
    Atlas(AtlasInstance),
}

#[derive(Debug, Clone, PartialEq, Eq)]
pub struct Element {
    pub transform: usize,
    pub kind: ElementKind,
}

#[derive(Debug, Clone, PartialEq, Eq)]
pub struct TimelineFrame {
    pub index: u32,
    pub duration: u32,
    pub elements: Vec<Element>,
}

#[derive(Debug, Clone, PartialEq, Eq)]
pub struct TimelineLayer {
    pub name: String,
    pub frames: Vec<TimelineFrame>,
}

#[derive(Debug, Clone, PartialEq, Eq)]
pub struct Symbol {
    pub name: String,
    pub layers: Vec<TimelineLayer>,
}

#[derive(Debug, Clone, PartialEq, Eq)]
pub struct Animation {
    pub name: String,
    pub symbol_name: String,
    pub labels: Vec<AnimationLabel>,
    pub layers: Vec<TimelineLayer>,
    pub symbols: Vec<Symbol>,
    /// Transform handle of the stage instance, when the export has one.
    pub stage: Option<usize>,
}

/// One atlas frame to draw, with the transform handles to compose, outermost first.
#[derive(Debug, Clone, PartialEq, Eq)]
pub struct DrawPart {
    pub frame_name: String,
    pub transforms: Vec<usize>,
}

/// Why an atlas could not be read or flattened.
#[derive(Debug, Clone, PartialEq, Eq)]
pub enum AtlasError {
    EmptyLabelName,
    ZeroLabelDuration(String),
    ZeroFrameDuration(u32),
    BothInstances,
    EmptySymbolName,
    EmptyElementSymbolName,
    EmptyAtlasFrameName,
    LabelNotFound(String),
    SymbolNotFound(String),
    SymbolRecursion(String),
    ZeroTextureSize,
    EmptyFrameName,
    NonPositiveFrameSize(String),
}

/// A draw part as plain values: frame name and transform path.
pub type PartView = (Seq<char>, Seq<usize>);

pub open spec fn part_view(p: DrawPart) -> PartView {
    (p.frame_name@, p.transforms@)
}

pub open spec fn parts_view(ps: Seq<DrawPart>) -> Seq<PartView> {
    ps.map_values(|p: DrawPart| part_view(p))
}

pub open spec fn names_view(st: Seq<String>) -> Seq<Seq<char>> {
    st.map_values(|s: String| s@)
}

pub open spec fn sat_add(a: u32, b: u32) -> u32 {
    if a + b > u32::MAX {
        u32::MAX
    } else {
        (a + b) as u32
    }
}

pub open spec fn sat_sub(a: u32, b: u32) -> u32 {
    if a < b {
        0
    } else {
        (a - b) as u32
    }
}

pub open spec fn min_u32(a: u32, b: u32) -> u32 {
    if a <= b {
        a
    } else {
        b
    }
}

pub open spec fn max_u32(a: u32, b: u32) -> u32 {
    if a >= b {
        a
    } else {
        b
    }
}

/// Index of the first label with this name, or -1.
pub open spec fn first_label_index(labels: Seq<AnimationLabel>, name: Seq<char>) -> int
    decreases labels.len(),
{
    if labels.len() == 0 {
        -1
    } else if labels[0].name@ == name {
        0
    } else {
        let r = first_label_index(labels.drop_first(), name);
        if r < 0 {
            -1
        } else {
            r + 1
        }
    }
}

/// Index of the last symbol with this name, or -1: later duplicates replace earlier ones.
pub open spec fn last_symbol_index(symbols: Seq<Symbol>, name: Seq<char>) -> int
    decreases symbols.len(),
{
    if symbols.len() == 0 {
        -1
    } else if symbols.last().name@ == name {
        symbols.len() - 1
    } else {
        last_symbol_index(symbols.drop_last(), name)
    }
}

/// Whether a frame is on screen at `frame_index`.
pub open spec fn frame_covers(frame: TimelineFrame, frame_index: u32) -> bool {
    frame.index <= frame_index && frame_index < sat_add(frame.index, frame.duration)
}

/// Index of the first frame that covers `frame_index`, or -1.
pub open spec fn first_active(frames: Seq<TimelineFrame>, frame_index: u32) -> int
    decreases frames.len(),
{
    if frames.len() == 0 {
        -1
    } else if frame_covers(frames[0], frame_index) {
        0
    } else {
        let r = first_active(frames.drop_first(), frame_index);
        if r < 0 {
            -1
        } else {
            r + 1
        }
    }
}

/// Last frame end (index plus duration, saturating) over the given frames; 0 when there are none.
pub open spec fn frames_end(frames: Seq<TimelineFrame>) -> u32
    decreases frames.len(),
{
    if frames.len() == 0 {
        0
    } else {
        max_u32(frames_end(frames.drop_last()), sat_add(frames.last().index, frames.last().duration))
    }
}

/// Length of a timeline: the latest frame end over all layers.
pub open spec fn timeline_duration_spec(layers: Seq<TimelineLayer>) -> u32
    decreases layers.len(),
{
    if layers.len() == 0 {
        0
    } else {
        max_u32(timeline_duration_spec(layers.drop_last()), frames_end(layers.last().frames@))
    }
}

pub open spec fn is_loop_mode(m: Option<String>, code: Seq<char>) -> bool {
    match m {
        Some(s) => s@ == code,
        None => false,
    }
}

/// Which frame of a nested symbol plays, from the instance's first frame, loop mode,
/// the symbol's duration and the parent's offset into the current keyframe.
pub open spec fn symbol_frame_index_spec(inst: SymbolInstance, duration: u32, offset: u32) -> u32 {
    if duration == 0 {
        0
    } else {
        let f = sat_add(inst.first_frame, offset);
        if is_loop_mode(inst.loop_mode, seq!['L', 'P']) {
            (f % duration) as u32
        } else if is_loop_mode(inst.loop_mode, seq!['S', 'F']) {
            min_u32(inst.first_frame, (duration - 1) as u32)
        } else {
            min_u32(f, (duration - 1) as u32)
        }
    }
}

/// The element list that a timeline shows at `frame_index`: layers from last to first,
/// each contributing the elements of its first covering frame, paired with the offset
/// of `frame_index` into that frame.
pub open spec fn layer_items(layer: TimelineLayer, frame_index: u32) -> Seq<(Element, u32)> {
    let j = first_active(layer.frames@, frame_index);
    if j < 0 {
        Seq::empty()
    } else {
        let frame = layer.frames@[j];
        frame.elements@.map_values(|e: Element| (e, sat_sub(frame_index, frame.index)))
    }
}

pub open spec fn elements_at(layers: Seq<TimelineLayer>, frame_index: u32) -> Seq<(Element, u32)>
    decreases layers.len(),
{
    if layers.len() == 0 {
        Seq::empty()
    } else {
        layer_items(layers.last(), frame_index) + elements_at(layers.drop_last(), frame_index)
    }
}

/// Symbols whose name is not yet on the recursion stack.
pub open spec fn unvisited(symbols: Seq<Symbol>, stack: Seq<Seq<char>>) -> nat
    decreases symbols.len(),
{
    if symbols.len() == 0 {
        0
    } else {
        unvisited(symbols.drop_last(), stack) + if stack.contains(symbols.last().name@) {
            0nat
        } else {
            1nat
        }
    }
}

pub proof fn lemma_unvisited_push(symbols: Seq<Symbol>, stack: Seq<Seq<char>>, k: int)
    requires
        0 <= k < symbols.len(),
        !stack.contains(symbols[k].name@),
    ensures
        unvisited(symbols, stack.push(symbols[k].name@)) < unvisited(symbols, stack),
    decreases symbols.len(),
{
    lemma_unvisited_push_le(symbols.drop_last(), stack, symbols[k].name@);
    let n = symbols[k].name@;
    assert(stack.push(n)[stack.len() as int] == n);
    assert(stack.push(n).contains(n));
    if k < symbols.len() - 1 {
        assert(symbols.drop_last()[k] == symbols[k]);
        lemma_unvisited_push(symbols.drop_last(), stack, k);
        if stack.push(n).contains(symbols.last().name@) {
        } else {
            assert(!stack.contains(symbols.last().name@)) by {
                if stack.contains(symbols.last().name@) {
                    let i = choose|i: int| 0 <= i < stack.len() && stack[i] == symbols.last().name@;
                    assert(stack.push(n)[i] == symbols.last().name@);
                }
            }
        }
    }
}

pub proof fn lemma_unvisited_push_le(symbols: Seq<Symbol>, stack: Seq<Seq<char>>, n: Seq<char>)
    ensures
        unvisited(symbols, stack.push(n)) <= unvisited(symbols, stack),
    decreases symbols.len(),
{
    if symbols.len() > 0 {
        lemma_unvisited_push_le(symbols.drop_last(), stack, n);
        if stack.contains(symbols.last().name@) {
            let i = choose|i: int| 0 <= i < stack.len() && stack[i] == symbols.last().name@;
            assert(stack.push(n)[i] == symbols.last().name@);
        }
    }
}

pub proof fn lemma_last_symbol_index_range(symbols: Seq<Symbol>, name: Seq<char>)
    ensures
        -1 <= last_symbol_index(symbols, name) < symbols.len(),
        last_symbol_index(symbols, name) >= 0 ==> symbols[last_symbol_index(symbols, name)].name@
            == name,
    decreases symbols.len(),
{
    if symbols.len() > 0 && symbols.last().name@ != name {
        lemma_last_symbol_index_range(symbols.drop_last(), name);
    }
}

pub open spec fn combine(
    head: Result<Seq<PartView>, AtlasError>,
    tail: Result<Seq<PartView>, AtlasError>,
) -> Result<Seq<PartView>, AtlasError> {
    match head {
        Err(e) => Err(e),
        Ok(p) => match tail {
            Err(e) => Err(e),
            Ok(q) => Ok(p + q),
        },
    }
}

/// Flattening one element at `offset` into its keyframe, under recursion stack `stack`
/// and transform path `path`.
pub open spec fn flat_item(
    a: Animation,
    e: Element,
    offset: u32,
    stack: Seq<Seq<char>>,
    path: Seq<usize>,
) -> Result<Seq<PartView>, AtlasError>
    decreases unvisited(a.symbols@, stack), 0nat, 0nat,
{
    match e.kind {
        ElementKind::Atlas(inst) => Ok(seq![(inst.frame_name@, path.push(e.transform))]),
        ElementKind::Symbol(inst) => {
            let k = last_symbol_index(a.symbols@, inst.symbol_name@);
            if k < 0 {
                Err(AtlasError::SymbolNotFound(inst.symbol_name))
            } else {
                let sym = a.symbols@[k];
                if stack.contains(sym.name@) {
                    Err(AtlasError::SymbolRecursion(sym.name))
                } else {
                    let d = timeline_duration_spec(sym.layers@);
                    let idx = min_u32(symbol_frame_index_spec(inst, d, offset), sat_sub(d, 1));
                    proof {
                        lemma_last_symbol_index_range(a.symbols@, inst.symbol_name@);
                        lemma_unvisited_push(a.symbols@, stack, k);
                    }
                    flat_layers(a, sym.layers@, idx, stack.push(sym.name@), path.push(e.transform))
                }
            }
        },
    }
}

/// Flattening a list of (element, offset) pairs in order; the first error wins.
pub open spec fn flat_items(
    a: Animation,
    items: Seq<(Element, u32)>,
    stack: Seq<Seq<char>>,
    path: Seq<usize>,
) -> Result<Seq<PartView>, AtlasError>
    decreases unvisited(a.symbols@, stack), 1nat, items.len(),
{
    if items.len() == 0 {
        Ok(Seq::empty())
    } else {
        combine(
            flat_item(a, items[0].0, items[0].1, stack, path),
            flat_items(a, items.drop_first(), stack, path),
        )
    }
}

/// Flattening the layers of a timeline at `frame_index`.
pub open spec fn flat_layers(
    a: Animation,
    layers: Seq<TimelineLayer>,
    frame_index: u32,
    stack: Seq<Seq<char>>,
    path: Seq<usize>,
) -> Result<Seq<PartView>, AtlasError>
    decreases unvisited(a.symbols@, stack), 2nat, 0nat,
{
    flat_items(a, elements_at(layers, frame_index), stack, path)
}


proof fn lemma_frames_end_step(frames: Seq<TimelineFrame>, i: int)
    requires
        0 <= i < frames.len(),
    ensures
        frames_end(frames.take(i + 1)) == max_u32(
            frames_end(frames.take(i)),
            sat_add(frames[i].index, frames[i].duration),
        ),
{
    assert(frames.take(i + 1).drop_last() =~= frames.take(i));
}

proof fn lemma_duration_step(layers: Seq<TimelineLayer>, i: int)
    requires
        0 <= i < layers.len(),
    ensures
        timeline_duration_spec(layers.take(i + 1)) == max_u32(
            timeline_duration_spec(layers.take(i)),
            frames_end(layers[i].frames@),
        ),
{
    assert(layers.take(i + 1).drop_last() =~= layers.take(i));
}

/// Latest frame end over all layers (0 for an empty timeline).
pub fn timeline_duration(layers: &Vec<TimelineLayer>) -> (d: u32)
    ensures
        d == timeline_duration_spec(layers@),
{
    let mut d: u32 = 0;
    let mut i: usize = 0;
    while i < layers.len()
        invariant
            i <= layers.len(),
            d == timeline_duration_spec(layers@.take(i as int)),
        decreases layers.len() - i,
    {
        let frames = &layers[i].frames;
        let mut e: u32 = 0;
        let mut j: usize = 0;
        while j < frames.len()
            invariant
                j <= frames.len(),
                frames == layers@[i as int].frames,
                e == frames_end(frames@.take(j as int)),
            decreases frames.len() - j,
        {
            proof {
                lemma_frames_end_step(frames@, j as int);
            }
            let end = frames[j].index.saturating_add(frames[j].duration);
            if end > e {
                e = end;
            }
            j = j + 1;
        }
        assert(frames@.take(frames.len() as int) =~= frames@);
        proof {
            lemma_duration_step(layers@, i as int);
        }
        if e > d {
            d = e;
        }
        i = i + 1;
    }
    assert(layers@.take(layers.len() as int) =~= layers@);
    d
}

impl Symbol {
    pub fn duration(&self) -> (d: u32)
        ensures
            d == timeline_duration_spec(self.layers@),
    {
        timeline_duration(&self.layers)
    }
}

proof fn lemma_first_active_prefix(frames: Seq<TimelineFrame>, fi: u32, j: int)
    requires
        0 <= j <= frames.len(),
        forall|k: int| 0 <= k < j ==> !frame_covers(#[trigger] frames[k], fi),
    ensures
        j < frames.len() && frame_covers(frames[j], fi) ==> first_active(frames, fi) == j,
        j == frames.len() ==> first_active(frames, fi) == -1,
    decreases j,
{
    if j > 0 {
        assert forall|k: int| 0 <= k < j - 1 implies !frame_covers(
            #[trigger] frames.drop_first()[k],
            fi,
        ) by {
            assert(frames.drop_first()[k] == frames[k + 1]);
        }
        lemma_first_active_prefix(frames.drop_first(), fi, j - 1);
    }
}

/// The transform of the first element of the frame on screen at `frame_index`, taking
/// layers from the top (the last) down and passing over layers with no such element.
pub open spec fn top_element_transform(layers: Seq<TimelineLayer>, frame_index: u32) -> Option<usize>
    decreases layers.len(),
{
    if layers.len() == 0 {
        None
    } else {
        let frames = layers.last().frames@;
        let j = first_active(frames, frame_index);
        if 0 <= j < frames.len() && frames[j].elements@.len() > 0 {
            Some(frames[j].elements@[0].transform)
        } else {
            top_element_transform(layers.drop_last(), frame_index)
        }
    }
}

/// The first frame on screen at `frame_index`.
pub fn active_frame(frames: &Vec<TimelineFrame>, frame_index: u32) -> (r: Option<usize>)
    ensures
        match r {
            Some(j) => j as int == first_active(frames@, frame_index) && j < frames.len(),
            None => first_active(frames@, frame_index) == -1,
        },
{
    let mut j: usize = 0;
    while j < frames.len()
        invariant
            j <= frames.len(),
            forall|k: int| 0 <= k < j ==> !frame_covers(#[trigger] frames@[k], frame_index),
        decreases frames.len() - j,
    {
        let f = &frames[j];
        if frame_index >= f.index && frame_index < f.index.saturating_add(f.duration) {
            proof {
                lemma_first_active_prefix(frames@, frame_index, j as int);
            }
            return Some(j);
        }
        j = j + 1;
    }
    proof {
        lemma_first_active_prefix(frames@, frame_index, j as int);
    }
    None
}

fn loop_mode_is(m: &Option<String>, code: &str) -> (r: bool)
    ensures
        r == match m {
            Some(s) => s@ == code@,
            None => false,
        },
{
    match m {
        Some(s) => str_eq(s.as_str(), code),
        None => false,
    }
}

/// Which frame of a nested symbol plays.
pub fn symbol_frame_index(inst: &SymbolInstance, symbol_duration: u32, frame_offset: u32) -> (r: u32)
    ensures
        r == symbol_frame_index_spec(*inst, symbol_duration, frame_offset),
{
    if symbol_duration == 0 {
        return 0;
    }
    proof {
        reveal_strlit("LP");
        reveal_strlit("SF");
    }
    let f = inst.first_frame.saturating_add(frame_offset);
    if loop_mode_is(&inst.loop_mode, "LP") {
        assert("LP"@ =~= seq!['L', 'P']);
        f % symbol_duration
    } else if loop_mode_is(&inst.loop_mode, "SF") {
        assert("LP"@ =~= seq!['L', 'P']);
        assert("SF"@ =~= seq!['S', 'F']);
        if inst.first_frame <= symbol_duration - 1 {
            inst.first_frame
        } else {
            symbol_duration - 1
        }
    } else {
        assert("LP"@ =~= seq!['L', 'P']);
        assert("SF"@ =~= seq!['S', 'F']);
        if f <= symbol_duration - 1 {
            f
        } else {
            symbol_duration - 1
        }
    }
}

proof fn lemma_first_label_prefix(labels: Seq<AnimationLabel>, name: Seq<char>, j: int)
    requires
        0 <= j <= labels.len(),
        forall|k: int| 0 <= k < j ==> (#[trigger] labels[k]).name@ != name,
    ensures
        j < labels.len() && labels[j].name@ == name ==> first_label_index(labels, name) == j,
        j == labels.len() ==> first_label_index(labels, name) == -1,
    decreases j,
{
    if j > 0 {
        assert forall|k: int| 0 <= k < j - 1 implies (#[trigger] labels.drop_first()[k]).name@
            != name by {
            assert(labels.drop_first()[k] == labels[k + 1]);
        }
        lemma_first_label_prefix(labels.drop_first(), name, j - 1);
    }
}

proof fn lemma_last_symbol_suffix(symbols: Seq<Symbol>, name: Seq<char>, j: int)
    requires
        0 <= j <= symbols.len(),
        forall|k: int| j <= k < symbols.len() ==> (#[trigger] symbols[k]).name@ != name,
    ensures
        j > 0 && symbols[j - 1].name@ == name ==> last_symbol_index(symbols, name) == j - 1,
        j == 0 ==> last_symbol_index(symbols, name) == -1,
    decreases symbols.len() - j,
{
    if j < symbols.len() {
        assert forall|k: int| j <= k < symbols.len() - 1 implies (
        #[trigger] symbols.drop_last()[k]).name@ != name by {
            assert(symbols.drop_last()[k] == symbols[k]);
        }
        lemma_last_symbol_suffix(symbols.drop_last(), name, j);
    }
}

impl Animation {
    /// Position of the first label with this name.
    pub fn label_index(&self, name: &str) -> (r: Option<usize>)
        ensures
            match r {
                Some(i) => i as int == first_label_index(self.labels@, name@) && i
                    < self.labels.len(),
                None => first_label_index(self.labels@, name@) == -1,
            },
    {
        let mut i: usize = 0;
        while i < self.labels.len()
            invariant
                i <= self.labels.len(),
                forall|k: int| 0 <= k < i ==> (#[trigger] self.labels@[k]).name@ != name@,
            decreases self.labels.len() - i,
        {
            if str_eq(self.labels[i].name.as_str(), name) {
                proof {
                    lemma_first_label_prefix(self.labels@, name@, i as int);
                }
                return Some(i);
            }
            i = i + 1;
        }
        proof {
            lemma_first_label_prefix(self.labels@, name@, i as int);
        }
        None
    }

    /// The first label with this name.
    pub fn label(&self, name: &str) -> (r: Option<&AnimationLabel>)
        ensures
            match r {
                Some(l) => first_label_index(self.labels@, name@) >= 0 && *l == self.labels@[first_label_index(
                    self.labels@,
                    name@,
                )],
                None => first_label_index(self.labels@, name@) == -1,
            },
    {
        match self.label_index(name) {
            Some(i) => Some(&self.labels[i]),
            None => None,
        }
    }

    /// Position of the symbol this name resolves to: the last one with that name.
    pub fn symbol_index(&self, name: &str) -> (r: Option<usize>)
        ensures
            match r {
                Some(i) => i as int == last_symbol_index(self.symbols@, name@) && i
                    < self.symbols.len(),
                None => last_symbol_index(self.symbols@, name@) == -1,
            },
    {
        let mut j: usize = self.symbols.len();
        while j > 0
            invariant
                j <= self.symbols.len(),
                forall|k: int| j <= k < self.symbols.len() ==> (#[trigger] self.symbols@[k]).name@
                    != name@,
            decreases j,
        {
            if str_eq(self.symbols[j - 1].name.as_str(), name) {
                proof {
                    lemma_last_symbol_suffix(self.symbols@, name@, j as int);
                }
                return Some(j - 1);
            }
            j = j - 1;
        }
        proof {
            lemma_last_symbol_suffix(self.symbols@, name@, 0);
        }
        None
    }

    /// The symbol this name resolves to: later duplicates replace earlier ones.
    pub fn symbol(&self, name: &str) -> (r: Option<&Symbol>)
        ensures
            match r {
                Some(s) => last_symbol_index(self.symbols@, name@) >= 0 && *s == self.symbols@[last_symbol_index(
                    self.symbols@,
                    name@,
                )],
                None => last_symbol_index(self.symbols@, name@) == -1,
            },
    {
        match self.symbol_index(name) {
            Some(i) => Some(&self.symbols[i]),
            None => None,
        }
    }

    /// Whether some symbol has this name.
    pub fn has_symbol(&self, name: &str) -> (r: bool)
        ensures
            r == exists|k: int| 0 <= k < self.symbols.len() && (#[trigger] self.symbols@[k]).name@
                == name@,
    {
        proof {
            lemma_last_symbol_index_range(self.symbols@, name@);
        }
        let r = self.symbol_index(name);
        proof {
            if r.is_none() {
                assert forall|k: int| 0 <= k < self.symbols.len() implies (
                #[trigger] self.symbols@[k]).name@ != name@ by {
                    if self.symbols@[k].name@ == name@ {
                        lemma_last_symbol_absent(self.symbols@, name@, k);
                    }
                }
            }
        }
        r.is_some()
    }
}

proof fn lemma_last_symbol_absent(symbols: Seq<Symbol>, name: Seq<char>, k: int)
    requires
        0 <= k < symbols.len(),
        symbols[k].name@ == name,
    ensures
        last_symbol_index(symbols, name) >= k,
    decreases symbols.len(),
{
    if symbols.last().name@ != name {
        assert(k < symbols.len() - 1);
        assert(symbols.drop_last()[k] == symbols[k]);
        lemma_last_symbol_absent(symbols.drop_last(), name, k);
    }
}


pub open spec fn prepend(
    acc: Seq<PartView>,
    r: Result<Seq<PartView>, AtlasError>,
) -> Result<Seq<PartView>, AtlasError> {
    match r {
        Ok(q) => Ok(acc + q),
        Err(e) => Err(e),
    }
}

/// The transform path at the top of a label's timeline: the stage instance, if any.
pub open spec fn stage_path(a: Animation) -> Seq<usize> {
    match a.stage {
        Some(t) => seq![t],
        None => Seq::empty(),
    }
}

fn copy_path(p: &Vec<usize>) -> (c: Vec<usize>)
    ensures
        c@ == p@,
{
    let mut c: Vec<usize> = Vec::new();
    let mut i: usize = 0;
    while i < p.len()
        invariant
            i <= p.len(),
            c@ == p@.take(i as int),
        decreases p.len() - i,
    {
        c.push(p[i]);
        i = i + 1;
        assert(c@ =~= p@.take(i as int));
    }
    assert(p@.take(p.len() as int) =~= p@);
    c
}

fn stack_contains(stack: &Vec<String>, name: &str) -> (r: bool)
    ensures
        r == names_view(stack@).contains(name@),
{
    let mut i: usize = 0;
    while i < stack.len()
        invariant
            i <= stack.len(),
            forall|k: int| 0 <= k < i ==> (#[trigger] stack@[k])@ != name@,
        decreases stack.len() - i,
    {
        if str_eq(stack[i].as_str(), name) {
            assert(names_view(stack@)[i as int] == name@);
            return true;
        }
        i = i + 1;
    }
    proof {
        if names_view(stack@).contains(name@) {
            let k = choose|k: int| 0 <= k < names_view(stack@).len() && names_view(stack@)[k] == name@;
            assert(stack@[k]@ == name@);
        }
    }
    false
}

proof fn lemma_parts_view_push(ps: Seq<DrawPart>, p: DrawPart)
    ensures
        parts_view(ps.push(p)) == parts_view(ps).push(part_view(p)),
{
    assert(parts_view(ps.push(p)) =~= parts_view(ps).push(part_view(p)));
}

proof fn lemma_names_view_push(st: Seq<String>, s: String)
    ensures
        names_view(st.push(s)) == names_view(st).push(s@),
{
    assert(names_view(st.push(s)) =~= names_view(st).push(s@));
}

proof fn lemma_elements_at_take(layers: Seq<TimelineLayer>, fi: u32, i: int)
    requires
        0 <= i < layers.len(),
    ensures
        elements_at(layers.take(i + 1), fi) == layer_items(layers[i], fi) + elements_at(
            layers.take(i),
            fi,
        ),
{
    assert(layers.take(i + 1).drop_last() =~= layers.take(i));
    assert(layers.take(i + 1).last() == layers[i]);
}

proof fn lemma_prepend_step(
    acc: Seq<PartView>,
    head: Result<Seq<PartView>, AtlasError>,
    tail: Result<Seq<PartView>, AtlasError>,
)
    requires
        head is Ok,
    ensures
        prepend(acc, combine(head, tail)) == prepend(acc + head->Ok_0, tail),
{
    match tail {
        Ok(q) => {
            assert(acc + (head->Ok_0 + q) =~= (acc + head->Ok_0) + q);
        },
        Err(e) => {},
    }
}

impl Animation {
    fn flatten_element(
        &self,
        e: &Element,
        offset: u32,
        stack: &mut Vec<String>,
        path: &mut Vec<usize>,
        parts: &mut Vec<DrawPart>,
    ) -> (r: Result<(), AtlasError>)
        ensures
            final(stack)@ == old(stack)@,
            final(path)@ == old(path)@,
            match flat_item(*self, *e, offset, names_view(old(stack)@), old(path)@) {
                Ok(ps) => r is Ok && parts_view(final(parts)@) == parts_view(old(parts)@) + ps,
                Err(err) => r == Err::<(), AtlasError>(err),
            },
        decreases unvisited(self.symbols@, names_view(old(stack)@)), 0nat,
    {
        match &e.kind {
            ElementKind::Atlas(inst) => {
                let mut t = copy_path(path);
                t.push(e.transform);
                let part = DrawPart { frame_name: inst.frame_name.clone(), transforms: t };
                proof {
                    lemma_parts_view_push(parts@, part);
                }
                parts.push(part);
                assert(seq![(inst.frame_name@, path@.push(e.transform))] =~= seq![part_view(part)]);
                Ok(())
            },
            ElementKind::Symbol(inst) => {
                let k = match self.symbol_index(inst.symbol_name.as_str()) {
                    None => {
                        return Err(AtlasError::SymbolNotFound(inst.symbol_name.clone()));
                    },
                    Some(k) => k,
                };
                let sym = &self.symbols[k];
                if stack_contains(stack, sym.name.as_str()) {
                    return Err(AtlasError::SymbolRecursion(sym.name.clone()));
                }
                let d = sym.duration();
                let idx0 = symbol_frame_index(inst, d, offset);
                let cap = d.saturating_sub(1);
                let idx = if idx0 <= cap {
                    idx0
                } else {
                    cap
                };
                let ghost st = names_view(stack@);
                proof {
                    lemma_unvisited_push(self.symbols@, st, k as int);
                    lemma_names_view_push(stack@, sym.name);
                }
                stack.push(sym.name.clone());
                path.push(e.transform);
                let r = self.flatten_layers(&sym.layers, idx, stack, path, parts);
                stack.pop();
                path.pop();
                assert(stack@ =~= old(stack)@);
                assert(path@ =~= old(path)@);
                r
            },
        }
    }

    fn flatten_layers(
        &self,
        layers: &Vec<TimelineLayer>,
        frame_index: u32,
        stack: &mut Vec<String>,
        path: &mut Vec<usize>,
        parts: &mut Vec<DrawPart>,
    ) -> (r: Result<(), AtlasError>)
        ensures
            final(stack)@ == old(stack)@,
            final(path)@ == old(path)@,
            match flat_layers(*self, layers@, frame_index, names_view(old(stack)@), old(path)@) {
                Ok(ps) => r is Ok && parts_view(final(parts)@) == parts_view(old(parts)@) + ps,
                Err(err) => r == Err::<(), AtlasError>(err),
            },
        decreases unvisited(self.symbols@, names_view(old(stack)@)), 1nat,
    {
        let ghost st0 = stack@;
        let ghost st = names_view(stack@);
        let ghost p0 = path@;
        let ghost base = parts_view(parts@);
        let ghost total = flat_layers(*self, layers@, frame_index, st, p0);
        let ghost mut acc: Seq<PartView> = Seq::empty();
        assert(layers@.take(layers.len() as int) =~= layers@);
        assert(base + acc =~= base);
        let mut li: usize = layers.len();
        while li > 0
            invariant
                li <= layers.len(),
                stack@ == st0,
                st0 == old(stack)@,
                p0 == old(path)@,
                base == parts_view(old(parts)@),
                st == names_view(st0),
                path@ == p0,
                parts_view(parts@) == base + acc,
                total == flat_layers(*self, layers@, frame_index, st, p0),
                total == prepend(acc, flat_items(*self, elements_at(layers@.take(li as int), frame_index), st, p0)),
            decreases li,
        {
            li = li - 1;
            proof {
                lemma_elements_at_take(layers@, frame_index, li as int);
            }
            let ghost rest = elements_at(layers@.take(li as int), frame_index);
            let layer = &layers[li];
            match active_frame(&layer.frames, frame_index) {
                None => {
                    assert(layer_items(layers@[li as int], frame_index) =~= Seq::<(Element, u32)>::empty());
                    assert(Seq::<(Element, u32)>::empty() + rest =~= rest);
                },
                Some(j) => {
                    let frame = &layer.frames[j];
                    let off = frame_index.saturating_sub(frame.index);
                    let ghost items = layer_items(layers@[li as int], frame_index);
                    assert(items =~= frame.elements@.map_values(|e: Element| (e, off)));
                    assert(items.skip(0) + rest =~= items + rest);
                    let mut ei: usize = 0;
                    while ei < frame.elements.len()
                        invariant
                            ei <= frame.elements.len(),
                            items == frame.elements@.map_values(|e: Element| (e, off)),
                            stack@ == st0,
                            st0 == old(stack)@,
                            p0 == old(path)@,
                            base == parts_view(old(parts)@),
                            st == names_view(st0),
                            path@ == p0,
                            parts_view(parts@) == base + acc,
                            total == prepend(acc, flat_items(*self, items.skip(ei as int) + rest, st, p0)),
                            total == flat_layers(*self, layers@, frame_index, st, p0),
                        decreases frame.elements.len() - ei,
                    {
                        let ghost remaining = items.skip(ei as int) + rest;
                        assert(remaining[0] == (frame.elements@[ei as int], off));
                        assert(remaining.drop_first() =~= items.skip(ei as int + 1) + rest);
                        let ghost head = flat_item(*self, frame.elements@[ei as int], off, st, p0);
                        assert(flat_items(*self, remaining, st, p0) == combine(
                            head,
                            flat_items(*self, remaining.drop_first(), st, p0),
                        ));
                        let r = self.flatten_element(&frame.elements[ei], off, stack, path, parts);
                        match r {
                            Err(err) => {
                                assert(head == Err::<Seq<PartView>, AtlasError>(err));
                                return Err(err);
                            },
                            Ok(()) => {},
                        }
                        proof {
                            lemma_prepend_step(acc, head, flat_items(*self, items.skip(ei as int + 1) + rest, st, p0));
                            assert(parts_view(parts@) =~= base + (acc + head->Ok_0));
                            acc = acc + head->Ok_0;
                        }
                        ei = ei + 1;
                    }
                    assert(items.skip(ei as int) + rest =~= rest);
                },
            }
        }
        assert(layers@.take(0) =~= Seq::<TimelineLayer>::empty());
        assert(acc + Seq::<PartView>::empty() =~= acc);
        Ok(())
    }

    /// The transform of the element a flattened label shows `frame_offset` frames in
    /// (clamped to its last frame): the first element of the on-screen frame of the
    /// topmost layer that has one there with an element; none (the identity) when no
    /// layer does.
    pub fn flat_label_transform(&self, label_name: &str, frame_offset: u32) -> (r: Result<Option<usize>, AtlasError>)
        ensures
            first_label_index(self.labels@, label_name@) < 0 ==> (r matches Err(
                AtlasError::LabelNotFound(s),
            ) && s@ == label_name@),
            first_label_index(self.labels@, label_name@) >= 0 ==> ({
                let label = self.labels@[first_label_index(self.labels@, label_name@)];
                let fi = sat_add(label.index, min_u32(frame_offset, sat_sub(label.duration, 1)));
                r == Ok::<Option<usize>, AtlasError>(top_element_transform(self.layers@, fi))
            }),
    {
        let i = match self.label_index(label_name) {
            None => {
                return Err(AtlasError::LabelNotFound(label_name.to_owned()));
            },
            Some(i) => i,
        };
        let label = &self.labels[i];
        let cap = label.duration.saturating_sub(1);
        let off = if frame_offset <= cap {
            frame_offset
        } else {
            cap
        };
        let fi = label.index.saturating_add(off);
        let mut n: usize = self.layers.len();
        assert(self.layers@.take(n as int) =~= self.layers@);
        while n > 0
            invariant
                n <= self.layers@.len(),
                i < self.labels@.len(),
                i as int == first_label_index(self.labels@, label_name@),
                fi == sat_add(self.labels@[i as int].index, min_u32(frame_offset, sat_sub(self.labels@[i as int].duration, 1))),
                top_element_transform(self.layers@, fi) == top_element_transform(self.layers@.take(n as int), fi),
            decreases n,
        {
            let layer = &self.layers[n - 1];
            proof {
                assert(self.layers@.take(n as int).last() == self.layers@[n - 1]);
                assert(self.layers@.take(n as int).drop_last() =~= self.layers@.take(n - 1));
            }
            match active_frame(&layer.frames, fi) {
                Some(j) => {
                    if layer.frames[j].elements.len() > 0 {
                        return Ok(Some(layer.frames[j].elements[0].transform));
                    }
                },
                None => {},
            }
            n = n - 1;
        }
        Ok(None)
    }

    /// The draw parts of a label's timeline at `frame_offset` frames into the label
    /// (clamped to its last frame), under the stage transform.
    pub fn flatten_label_frame(&self, label_name: &str, frame_offset: u32) -> (r: Result<
        Vec<DrawPart>,
        AtlasError,
    >)
        ensures
            first_label_index(self.labels@, label_name@) < 0 ==> (r matches Err(
                AtlasError::LabelNotFound(s),
            ) && s@ == label_name@),
            first_label_index(self.labels@, label_name@) >= 0 ==> ({
                let label = self.labels@[first_label_index(self.labels@, label_name@)];
                let fi = sat_add(label.index, min_u32(frame_offset, sat_sub(label.duration, 1)));
                match flat_layers(*self, self.layers@, fi, Seq::empty(), stage_path(*self)) {
                    Ok(ps) => r matches Ok(v) && parts_view(v@) == ps,
                    Err(err) => r == Err::<Vec<DrawPart>, AtlasError>(err),
                }
            }),
    {
        let i = match self.label_index(label_name) {
            None => {
                return Err(AtlasError::LabelNotFound(label_name.to_owned()));
            },
            Some(i) => i,
        };
        let label = &self.labels[i];
        let cap = label.duration.saturating_sub(1);
        let off = if frame_offset <= cap {
            frame_offset
        } else {
            cap
        };
        let fi = label.index.saturating_add(off);
        let mut stack: Vec<String> = Vec::new();
        let mut path: Vec<usize> = Vec::new();
        match self.stage {
            Some(t) => path.push(t),
            None => {},
        }
        assert(path@ =~= stage_path(*self));
        assert(names_view(stack@) =~= Seq::<Seq<char>>::empty());
        let mut parts: Vec<DrawPart> = Vec::new();
        assert(parts_view(parts@) =~= Seq::<PartView>::empty());
        let r = self.flatten_layers(&self.layers, fi, &mut stack, &mut path, &mut parts);
        match r {
            Ok(()) => {
                assert(Seq::<PartView>::empty() + parts_view(parts@) =~= parts_view(parts@));
                Ok(parts)
            },
            Err(e) => Err(e),
        }
    }

    /// The draw parts of a symbol's timeline at `frame_index` (clamped to its last
    /// frame), with no enclosing transform.
    pub fn flatten_symbol_frame(&self, symbol_name: &str, frame_index: u32) -> (r: Result<
        Vec<DrawPart>,
        AtlasError,
    >)
        ensures
            last_symbol_index(self.symbols@, symbol_name@) < 0 ==> (r matches Err(
                AtlasError::SymbolNotFound(s),
            ) && s@ == symbol_name@),
            last_symbol_index(self.symbols@, symbol_name@) >= 0 ==> ({
                let sym = self.symbols@[last_symbol_index(self.symbols@, symbol_name@)];
                let d = timeline_duration_spec(sym.layers@);
                let fi = min_u32(frame_index, sat_sub(d, 1));
                match flat_layers(*self, sym.layers@, fi, seq![sym.name@], Seq::empty()) {
                    Ok(ps) => r matches Ok(v) && parts_view(v@) == ps,
                    Err(err) => r == Err::<Vec<DrawPart>, AtlasError>(err),
                }
            }),
    {
        let k = match self.symbol_index(symbol_name) {
            None => {
                return Err(AtlasError::SymbolNotFound(symbol_name.to_owned()));
            },
            Some(k) => k,
        };
        let sym = &self.symbols[k];
        let d = sym.duration();
        let cap = d.saturating_sub(1);
        let fi = if frame_index <= cap {
            frame_index
        } else {
            cap
        };
        let mut stack: Vec<String> = Vec::new();
        stack.push(sym.name.clone());
        assert(names_view(stack@) =~= seq![sym.name@]);
        let mut path: Vec<usize> = Vec::new();
        let mut parts: Vec<DrawPart> = Vec::new();
        assert(parts_view(parts@) =~= Seq::<PartView>::empty());
        let r = self.flatten_layers(&sym.layers, fi, &mut stack, &mut path, &mut parts);
        match r {
            Ok(()) => {
                assert(Seq::<PartView>::empty() + parts_view(parts@) =~= parts_view(parts@));
                Ok(parts)
            },
            Err(e) => Err(e),
        }
    }
}

} // verus!
