//! Building an [`Animation`] from the plain values of an `Animation.json` export
//! (compact `AN`/`SD` keys or the verbose JSFL keys): validation, loop-mode
//! normalisation and ordering of frames and labels.

use vstd::prelude::*;
use crate::animation::{
    Animation, AnimationLabel, AtlasError, AtlasInstance, Element, ElementKind, Symbol,
    SymbolInstance, TimelineFrame, TimelineLayer,
};
use crate::sort::{stable_sort, stable_sort_by_key, Keyed, lemma_stable_sort_map};
use crate::text::{
    before_first, chars_eq, chars_of, eq_ignore_ascii_case, eq_ignore_ascii_case_seq, is_blank,
    is_blank_seq, str_eq, string_from_chars,
};

verus! {

#[derive(Debug, Clone)]
pub struct RawSymbolInstance {
    pub symbol_name: String,
    pub first_frame: u32,
    pub symbol_type: Option<String>,
    pub loop_mode: Option<String>,
    pub transform: usize,
}

#[derive(Debug, Clone)]
pub struct RawAtlasInstance {
    pub frame_name: String,
    pub transform: usize,
}

#[derive(Debug, Clone)]
pub struct RawElement {
    pub symbol_instance: Option<RawSymbolInstance>,
    pub atlas_instance: Option<RawAtlasInstance>,
}

#[derive(Debug, Clone)]
pub struct RawFrame {
    pub name: Option<String>,
    pub index: u32,
    pub duration: u32,
    pub elements: Vec<RawElement>,
}

#[derive(Debug, Clone)]
pub struct RawLayer {
    pub name: Option<String>,
    pub frames: Vec<RawFrame>,
}

#[derive(Debug, Clone)]
pub struct RawTimeline {
    pub layers: Vec<RawLayer>,
}

#[derive(Debug, Clone)]
pub struct RawSymbol {
    pub name: String,
    pub timeline: Option<RawTimeline>,
}

/// A compact export: `AN` with its own optional `SD`, a top-level `SD`, and the stage instance.
#[derive(Debug, Clone)]
pub struct RawAnimationFile {
    pub name: Option<String>,
    pub symbol_name: Option<String>,
    pub timeline: RawTimeline,
    pub symbol_dictionary: Option<Vec<RawSymbol>>,
    pub top_level_symbol_dictionary: Option<Vec<RawSymbol>>,
    pub stage_instance: Option<RawSymbolInstance>,
}

/// A verbose JSFL export: `ANIMATION` and `SYMBOL_DICTIONARY`.
#[derive(Debug, Clone)]
pub struct RawVerboseFile {
    pub name: Option<String>,
    pub symbol_name: Option<String>,
    pub timeline: RawTimeline,
    pub symbol_dictionary: Option<Vec<RawSymbol>>,
}

// ----- plain-value views of the model -----

pub enum KindV {
    Symbol(Seq<char>, u32, Option<Seq<char>>),
    Atlas(Seq<char>),
}

pub struct ElementV {
    pub transform: usize,
    pub kind: KindV,
}

pub struct FrameV {
    pub index: u32,
    pub duration: u32,
    pub elements: Seq<ElementV>,
}

pub struct LayerV {
    pub name: Seq<char>,
    pub frames: Seq<FrameV>,
}

pub struct SymbolV {
    pub name: Seq<char>,
    pub layers: Seq<LayerV>,
}

pub type LabelV = (Seq<char>, u32, u32);

pub struct AnimationV {
    pub name: Seq<char>,
    pub symbol_name: Seq<char>,
    pub labels: Seq<LabelV>,
    pub layers: Seq<LayerV>,
    pub symbols: Seq<SymbolV>,
    pub stage: Option<usize>,
}

pub open spec fn opt_view(o: Option<String>) -> Option<Seq<char>> {
    match o {
        Some(s) => Some(s@),
        None => None,
    }
}

pub open spec fn opt_or_empty(o: Option<String>) -> Seq<char> {
    match o {
        Some(s) => s@,
        None => Seq::empty(),
    }
}

pub open spec fn element_v(e: Element) -> ElementV {
    ElementV {
        transform: e.transform,
        kind: match e.kind {
            ElementKind::Symbol(i) => KindV::Symbol(i.symbol_name@, i.first_frame, opt_view(i.loop_mode)),
            ElementKind::Atlas(i) => KindV::Atlas(i.frame_name@),
        },
    }
}

pub open spec fn frame_v(f: TimelineFrame) -> FrameV {
    FrameV {
        index: f.index,
        duration: f.duration,
        elements: f.elements@.map_values(|e: Element| element_v(e)),
    }
}

pub open spec fn layer_v(l: TimelineLayer) -> LayerV {
    LayerV { name: l.name@, frames: l.frames@.map_values(|f: TimelineFrame| frame_v(f)) }
}

pub open spec fn layers_v(ls: Seq<TimelineLayer>) -> Seq<LayerV> {
    ls.map_values(|l: TimelineLayer| layer_v(l))
}

pub open spec fn symbol_v(s: Symbol) -> SymbolV {
    SymbolV { name: s.name@, layers: layers_v(s.layers@) }
}

pub open spec fn label_v(l: AnimationLabel) -> LabelV {
    (l.name@, l.index, l.duration)
}

pub open spec fn animation_v(a: Animation) -> AnimationV {
    AnimationV {
        name: a.name@,
        symbol_name: a.symbol_name@,
        labels: a.labels@.map_values(|l: AnimationLabel| label_v(l)),
        layers: layers_v(a.layers@),
        symbols: a.symbols@.map_values(|s: Symbol| symbol_v(s)),
        stage: a.stage,
    }
}

// ----- the specification of building -----

pub open spec fn seq_lp() -> Seq<char> {
    seq!['L', 'P']
}

pub open spec fn seq_sf() -> Seq<char> {
    seq!['S', 'F']
}

pub open spec fn is_movie_clip_type(t: Seq<char>) -> bool {
    t == seq!['M', 'C'] || eq_ignore_ascii_case_seq(
        t,
        seq!['m', 'o', 'v', 'i', 'e', 'c', 'l', 'i', 'p'],
    )
}

pub open spec fn is_button_type(t: Seq<char>) -> bool {
    t == seq!['B'] || eq_ignore_ascii_case_seq(t, seq!['b', 'u', 't', 't', 'o', 'n'])
}

pub open spec fn is_non_graphic_type(t: Option<Seq<char>>) -> bool {
    match t {
        Some(t) => is_movie_clip_type(t) || is_button_type(t),
        None => false,
    }
}

/// Compact exports: movie clips always loop, buttons show one frame, graphics follow
/// their loop code (text before any `R`): play-once, single-frame, or loop.
pub open spec fn compact_loop_mode(t: Option<Seq<char>>, m: Option<Seq<char>>) -> Option<Seq<char>> {
    if t is Some && is_movie_clip_type(t->0) {
        Some(seq_lp())
    } else if t is Some && is_button_type(t->0) {
        Some(seq_sf())
    } else {
        let code = before_first(
            match m {
                Some(s) => s,
                None => seq_lp(),
            },
            'R',
        );
        if code == seq!['P', 'O'] || code == seq!['p', 'l', 'a', 'y', 'o', 'n', 'c', 'e'] {
            None
        } else if code == seq_sf() || code == seq![
            's',
            'i',
            'n',
            'g',
            'l',
            'e',
            'f',
            'r',
            'a',
            'm',
            'e',
        ] {
            Some(seq_sf())
        } else {
            Some(seq_lp())
        }
    }
}

/// Verbose exports: `loop`, `singleframe`, `playonce` are renamed; other codes pass through.
pub open spec fn verbose_loop_mode(m: Option<Seq<char>>) -> Option<Seq<char>> {
    match m {
        None => None,
        Some(s) => if s == seq!['l', 'o', 'o', 'p'] {
            Some(seq_lp())
        } else if s == seq!['s', 'i', 'n', 'g', 'l', 'e', 'f', 'r', 'a', 'm', 'e'] {
            Some(seq_sf())
        } else if s == seq!['p', 'l', 'a', 'y', 'o', 'n', 'c', 'e'] {
            None
        } else {
            Some(s)
        },
    }
}

pub open spec fn symbol_element_spec(i: RawSymbolInstance) -> Result<ElementV, AtlasError> {
    if is_blank_seq(i.symbol_name@) {
        Err(AtlasError::EmptyElementSymbolName)
    } else {
        let ff = if is_non_graphic_type(opt_view(i.symbol_type)) {
            0u32
        } else {
            i.first_frame
        };
        let lm = compact_loop_mode(opt_view(i.symbol_type), opt_view(i.loop_mode));
        Ok(ElementV { transform: i.transform, kind: KindV::Symbol(i.symbol_name@, ff, lm) })
    }
}

pub open spec fn atlas_element_spec(i: RawAtlasInstance) -> Result<ElementV, AtlasError> {
    if is_blank_seq(i.frame_name@) {
        Err(AtlasError::EmptyAtlasFrameName)
    } else {
        Ok(ElementV { transform: i.transform, kind: KindV::Atlas(i.frame_name@) })
    }
}

pub open spec fn element_spec(e: RawElement) -> Result<Option<ElementV>, AtlasError> {
    if e.symbol_instance is Some && e.atlas_instance is Some {
        Err(AtlasError::BothInstances)
    } else if e.symbol_instance is Some {
        match symbol_element_spec(e.symbol_instance->0) {
            Ok(x) => Ok(Some(x)),
            Err(err) => Err(err),
        }
    } else if e.atlas_instance is Some {
        match atlas_element_spec(e.atlas_instance->0) {
            Ok(x) => Ok(Some(x)),
            Err(err) => Err(err),
        }
    } else {
        Ok(None)
    }
}

/// Folding a sequence through a step that yields zero or more values or an error;
/// the first error in sequence order wins.
pub open spec fn fold_steps<A, B>(
    s: Seq<A>,
    step: spec_fn(A) -> Result<Seq<B>, AtlasError>,
) -> Result<Seq<B>, AtlasError>
    decreases s.len(),
{
    if s.len() == 0 {
        Ok(Seq::empty())
    } else {
        match fold_steps(s.drop_last(), step) {
            Err(err) => Err(err),
            Ok(p) => match step(s.last()) {
                Err(err) => Err(err),
                Ok(q) => Ok(p + q),
            },
        }
    }
}

pub open spec fn one<T>(r: Result<T, AtlasError>) -> Result<Seq<T>, AtlasError> {
    match r {
        Err(err) => Err(err),
        Ok(x) => Ok(seq![x]),
    }
}

pub open spec fn element_step() -> spec_fn(RawElement) -> Result<Seq<ElementV>, AtlasError> {
    |e: RawElement|
        match element_spec(e) {
            Err(err) => Err(err),
            Ok(None) => Ok(Seq::empty()),
            Ok(Some(x)) => Ok(seq![x]),
        }
}

pub open spec fn elements_spec(es: Seq<RawElement>) -> Result<Seq<ElementV>, AtlasError> {
    fold_steps(es, element_step())
}

pub open spec fn frame_spec(f: RawFrame) -> Result<FrameV, AtlasError> {
    if f.duration == 0 {
        Err(AtlasError::ZeroFrameDuration(f.index))
    } else {
        match elements_spec(f.elements@) {
            Err(err) => Err(err),
            Ok(es) => Ok(FrameV { index: f.index, duration: f.duration, elements: es }),
        }
    }
}

pub open spec fn frame_step() -> spec_fn(RawFrame) -> Result<Seq<FrameV>, AtlasError> {
    |f: RawFrame| one(frame_spec(f))
}

pub open spec fn frames_spec(fs: Seq<RawFrame>) -> Result<Seq<FrameV>, AtlasError> {
    fold_steps(fs, frame_step())
}

pub open spec fn layer_spec(l: RawLayer) -> Result<LayerV, AtlasError> {
    match frames_spec(l.frames@) {
        Err(err) => Err(err),
        Ok(fs) => Ok(
            LayerV { name: opt_or_empty(l.name), frames: stable_sort(fs, |f: FrameV| f.index) },
        ),
    }
}

pub open spec fn layer_step() -> spec_fn(RawLayer) -> Result<Seq<LayerV>, AtlasError> {
    |l: RawLayer| one(layer_spec(l))
}

pub open spec fn layers_spec(ls: Seq<RawLayer>) -> Result<Seq<LayerV>, AtlasError> {
    fold_steps(ls, layer_step())
}

pub open spec fn frame_label_spec(f: RawFrame) -> Result<Option<LabelV>, AtlasError> {
    match f.name {
        None => Ok(None),
        Some(n) => if is_blank_seq(n@) {
            Err(AtlasError::EmptyLabelName)
        } else if f.duration == 0 {
            Err(AtlasError::ZeroLabelDuration(n))
        } else {
            Ok(Some((n@, f.index, f.duration)))
        },
    }
}

pub open spec fn frame_label_step() -> spec_fn(RawFrame) -> Result<Seq<LabelV>, AtlasError> {
    |f: RawFrame|
        match frame_label_spec(f) {
            Err(err) => Err(err),
            Ok(None) => Ok(Seq::empty()),
            Ok(Some(x)) => Ok(seq![x]),
        }
}

pub open spec fn frame_labels_spec(fs: Seq<RawFrame>) -> Result<Seq<LabelV>, AtlasError> {
    fold_steps(fs, frame_label_step())
}

pub open spec fn layer_label_step() -> spec_fn(RawLayer) -> Result<Seq<LabelV>, AtlasError> {
    |l: RawLayer| frame_labels_spec(l.frames@)
}

pub open spec fn layer_labels_spec(ls: Seq<RawLayer>) -> Result<Seq<LabelV>, AtlasError> {
    fold_steps(ls, layer_label_step())
}

/// The timeline's labels: named keyframes in layer order, then stably ordered by start frame.
pub open spec fn labels_spec(ls: Seq<RawLayer>) -> Result<Seq<LabelV>, AtlasError> {
    match layer_labels_spec(ls) {
        Err(err) => Err(err),
        Ok(p) => Ok(stable_sort(p, |l: LabelV| l.1)),
    }
}

pub open spec fn timeline_layers_of(t: Option<RawTimeline>) -> Seq<RawLayer> {
    match t {
        Some(t) => t.layers@,
        None => Seq::empty(),
    }
}

pub open spec fn symbol_spec(s: RawSymbol) -> Result<SymbolV, AtlasError> {
    if is_blank_seq(s.name@) {
        Err(AtlasError::EmptySymbolName)
    } else {
        match layers_spec(timeline_layers_of(s.timeline)) {
            Err(err) => Err(err),
            Ok(ls) => Ok(SymbolV { name: s.name@, layers: ls }),
        }
    }
}

pub open spec fn symbol_step() -> spec_fn(RawSymbol) -> Result<Seq<SymbolV>, AtlasError> {
    |x: RawSymbol| one(symbol_spec(x))
}

pub open spec fn symbols_spec(ss: Seq<RawSymbol>) -> Result<Seq<SymbolV>, AtlasError> {
    fold_steps(ss, symbol_step())
}

pub open spec fn stage_spec(s: Option<RawSymbolInstance>) -> Result<Option<usize>, AtlasError> {
    match s {
        None => Ok(None),
        Some(i) => match symbol_element_spec(i) {
            Err(err) => Err(err),
            Ok(_) => Ok(Some(i.transform)),
        },
    }
}

/// The symbol dictionary in effect: the one inside `AN` when present, else the top-level one.
pub open spec fn compact_dictionary(raw: RawAnimationFile) -> Seq<RawSymbol> {
    match raw.symbol_dictionary {
        Some(d) => d@,
        None => match raw.top_level_symbol_dictionary {
            Some(d) => d@,
            None => Seq::empty(),
        },
    }
}

/// A compact export: labels, then layers, then the stage instance, then symbols are
/// checked in that order; the first error is reported.
pub open spec fn compact_spec(raw: RawAnimationFile) -> Result<AnimationV, AtlasError> {
    match labels_spec(raw.timeline.layers@) {
        Err(err) => Err(err),
        Ok(labels) => match layers_spec(raw.timeline.layers@) {
            Err(err) => Err(err),
            Ok(layers) => match stage_spec(raw.stage_instance) {
                Err(err) => Err(err),
                Ok(stage) => match symbols_spec(compact_dictionary(raw)) {
                    Err(err) => Err(err),
                    Ok(symbols) => Ok(
                        AnimationV {
                            name: opt_or_empty(raw.name),
                            symbol_name: opt_or_empty(raw.symbol_name),
                            labels,
                            layers,
                            symbols,
                            stage,
                        },
                    ),
                },
            },
        },
    }
}

pub open spec fn has_symbol_named(symbols: Seq<SymbolV>, name: Seq<char>) -> bool {
    exists|k: int| 0 <= k < symbols.len() && (#[trigger] symbols[k]).name == name
}

/// A verbose export: as compact, without a stage; the root timeline is also offered as a
/// symbol under the root symbol name when no symbol has that name.
pub open spec fn verbose_spec(raw: RawVerboseFile) -> Result<AnimationV, AtlasError> {
    match labels_spec(raw.timeline.layers@) {
        Err(err) => Err(err),
        Ok(labels) => match layers_spec(raw.timeline.layers@) {
            Err(err) => Err(err),
            Ok(layers) => match symbols_spec(
                                match raw.symbol_dictionary {
                    Some(d) => d@,
                    None => Seq::empty(),
                },
            ) {
                Err(err) => Err(err),
                Ok(symbols) => {
                    let root = opt_or_empty(raw.symbol_name);
                    let add_root = !is_blank_seq(root) && !has_symbol_named(symbols, root);
                    Ok(
                        AnimationV {
                            name: opt_or_empty(raw.name),
                            symbol_name: root,
                            labels,
                            layers,
                            symbols: if add_root {
                                symbols.push(SymbolV { name: root, layers })
                            } else {
                                symbols
                            },
                            stage: None,
                        },
                    )
                },
            },
        },
    }
}


pub proof fn lemma_fold_step<A, B>(s: Seq<A>, step: spec_fn(A) -> Result<Seq<B>, AtlasError>, i: int)
    requires
        0 <= i < s.len(),
    ensures
        fold_steps(s.take(i + 1), step) == match fold_steps(s.take(i), step) {
            Err(err) => Err(err),
            Ok(p) => match step(s[i]) {
                Err(err) => Err(err),
                Ok(q) => Ok(p + q),
            },
        },
{
    assert(s.take(i + 1).drop_last() =~= s.take(i));
    assert(s.take(i + 1).last() == s[i]);
}

pub proof fn lemma_fold_prefix_err<A, B>(
    s: Seq<A>,
    step: spec_fn(A) -> Result<Seq<B>, AtlasError>,
    i: int,
)
    requires
        0 <= i <= s.len(),
        fold_steps(s.take(i), step) is Err,
    ensures
        fold_steps(s, step) == fold_steps(s.take(i), step),
    decreases s.len() - i,
{
    if i < s.len() {
        lemma_fold_step(s, step, i);
        lemma_fold_prefix_err(s, step, i + 1);
    } else {
        assert(s.take(i) =~= s);
    }
}

pub proof fn lemma_fold_start<A, B>(s: Seq<A>, step: spec_fn(A) -> Result<Seq<B>, AtlasError>)
    ensures
        fold_steps(s.take(0), step) == Ok::<Seq<B>, AtlasError>(Seq::empty()),
{
    assert(s.take(0) =~= Seq::<A>::empty());
}

pub proof fn lemma_fold_end<A, B>(s: Seq<A>, step: spec_fn(A) -> Result<Seq<B>, AtlasError>)
    ensures
        fold_steps(s.take(s.len() as int), step) == fold_steps(s, step),
{
    assert(s.take(s.len() as int) =~= s);
}


impl Keyed for AnimationLabel {
    open spec fn key_of(&self) -> u32 {
        self.index
    }

    fn key(&self) -> (k: u32) {
        self.index
    }
}

impl Keyed for TimelineFrame {
    open spec fn key_of(&self) -> u32 {
        self.index
    }

    fn key(&self) -> (k: u32) {
        self.index
    }
}

fn owned(s: &str) -> (r: String)
    ensures
        r@ == s@,
{
    s.to_owned()
}

fn opt_clone(o: &Option<String>) -> (r: Option<String>)
    ensures
        opt_view(r) == opt_view(*o),
{
    match o {
        Some(s) => Some(s.clone()),
        None => None,
    }
}

fn opt_or_empty_string(o: &Option<String>) -> (r: String)
    ensures
        r@ == opt_or_empty(*o),
{
    match o {
        Some(s) => s.clone(),
        None => String::new(),
    }
}

pub fn is_movie_clip_symbol_type(t: &str) -> (r: bool)
    ensures
        r == is_movie_clip_type(t@),
{
    proof {
        reveal_strlit("MC");
        reveal_strlit("movieclip");
    }
    assert("MC"@ =~= seq!['M', 'C']);
    assert("movieclip"@ =~= seq!['m', 'o', 'v', 'i', 'e', 'c', 'l', 'i', 'p']);
    let a = str_eq(t, "MC");
    let b = eq_ignore_ascii_case(t, "movieclip");
    a || b
}

pub fn is_button_symbol_type(t: &str) -> (r: bool)
    ensures
        r == is_button_type(t@),
{
    proof {
        reveal_strlit("B");
        reveal_strlit("button");
    }
    assert("B"@ =~= seq!['B']);
    assert("button"@ =~= seq!['b', 'u', 't', 't', 'o', 'n']);
    let a = str_eq(t, "B");
    let b = eq_ignore_ascii_case(t, "button");
    a || b
}

pub fn is_non_graphic_symbol_type(t: &str) -> (r: bool)
    ensures
        r == (is_movie_clip_type(t@) || is_button_type(t@)),
{
    is_movie_clip_symbol_type(t) || is_button_symbol_type(t)
}

/// Movie clips and buttons start at their first frame regardless of `FF`.
pub fn normalize_symbol_first_frame(symbol_type: &Option<String>, first_frame: u32) -> (r: u32)
    ensures
        r == if is_non_graphic_type(opt_view(*symbol_type)) {
            0u32
        } else {
            first_frame
        },
{
    match symbol_type {
        Some(t) => if is_non_graphic_symbol_type(t.as_str()) {
            0
        } else {
            first_frame
        },
        None => first_frame,
    }
}

proof fn lemma_before_first_step(s: Seq<char>, sep: char, i: int)
    requires
        0 <= i < s.len(),
        s[i] != sep,
    ensures
        before_first(s.skip(i), sep) == seq![s[i]] + before_first(s.skip(i + 1), sep),
{
    assert(s.skip(i).drop_first() =~= s.skip(i + 1));
    assert(s.skip(i)[0] == s[i]);
}

/// The characters before the first `sep` (all of them when there is none).
pub fn prefix_before(v: &Vec<char>, sep: char) -> (r: Vec<char>)
    ensures
        r@ == before_first(v@, sep),
{
    let mut out: Vec<char> = Vec::new();
    let mut i: usize = 0;
    assert(v@.skip(0) =~= v@);
    while i < v.len() && v[i] != sep
        invariant
            i <= v.len(),
            before_first(v@, sep) == out@ + before_first(v@.skip(i as int), sep),
        decreases v.len() - i,
    {
        proof {
            lemma_before_first_step(v@, sep, i as int);
            assert(out@.push(v@[i as int]) + before_first(v@.skip(i + 1), sep) =~= out@ + (seq![v@[i as int]]
                + before_first(v@.skip(i + 1), sep)));
        }
        out.push(v[i]);
        i = i + 1;
    }
    proof {
        if i < v.len() {
            assert(v@.skip(i as int)[0] == sep);
        }
        assert(before_first(v@.skip(i as int), sep) =~= Seq::<char>::empty());
        assert(out@ + Seq::<char>::empty() =~= out@);
    }
    out
}

fn chars_is(v: &Vec<char>, lit: &str) -> (r: bool)
    ensures
        r == (v@ == lit@),
{
    let l = chars_of(lit);
    chars_eq(v, &l)
}

/// Loop mode of a compact symbol instance.
pub fn normalize_symbol_loop_mode(symbol_type: &Option<String>, loop_mode: &Option<String>) -> (r:
    Option<String>)
    ensures
        opt_view(r) == compact_loop_mode(opt_view(*symbol_type), opt_view(*loop_mode)),
{
    proof {
        reveal_strlit("LP");
        reveal_strlit("SF");
        reveal_strlit("PO");
        reveal_strlit("playonce");
        reveal_strlit("singleframe");
    }
    assert("LP"@ =~= seq_lp());
    assert("SF"@ =~= seq_sf());
    assert("PO"@ =~= seq!['P', 'O']);
    assert("playonce"@ =~= seq!['p', 'l', 'a', 'y', 'o', 'n', 'c', 'e']);
    assert("singleframe"@ =~= seq!['s', 'i', 'n', 'g', 'l', 'e', 'f', 'r', 'a', 'm', 'e']);
    match symbol_type {
        Some(t) => {
            if is_movie_clip_symbol_type(t.as_str()) {
                return Some(owned("LP"));
            }
            if is_button_symbol_type(t.as_str()) {
                return Some(owned("SF"));
            }
        },
        None => {},
    }
    let full = match loop_mode {
        Some(m) => chars_of(m.as_str()),
        None => chars_of("LP"),
    };
    let code = prefix_before(&full, 'R');
    if chars_is(&code, "PO") || chars_is(&code, "playonce") {
        None
    } else if chars_is(&code, "SF") || chars_is(&code, "singleframe") {
        Some(owned("SF"))
    } else {
        Some(owned("LP"))
    }
}

/// Loop mode of a verbose symbol instance.
pub fn normalize_loop_mode(loop_mode: &Option<String>) -> (r: Option<String>)
    ensures
        opt_view(r) == verbose_loop_mode(opt_view(*loop_mode)),
{
    proof {
        reveal_strlit("LP");
        reveal_strlit("SF");
        reveal_strlit("loop");
        reveal_strlit("playonce");
        reveal_strlit("singleframe");
    }
    assert("LP"@ =~= seq_lp());
    assert("SF"@ =~= seq_sf());
    assert("loop"@ =~= seq!['l', 'o', 'o', 'p']);
    assert("playonce"@ =~= seq!['p', 'l', 'a', 'y', 'o', 'n', 'c', 'e']);
    assert("singleframe"@ =~= seq!['s', 'i', 'n', 'g', 'l', 'e', 'f', 'r', 'a', 'm', 'e']);
    match loop_mode {
        None => None,
        Some(m) => {
            if str_eq(m.as_str(), "loop") {
                Some(owned("LP"))
            } else if str_eq(m.as_str(), "singleframe") {
                Some(owned("SF"))
            } else if str_eq(m.as_str(), "playonce") {
                None
            } else {
                Some(m.clone())
            }
        },
    }
}

fn build_symbol_element(i: &RawSymbolInstance) -> (r: Result<Element, AtlasError>)
    ensures
        match symbol_element_spec(*i) {
            Ok(v) => r matches Ok(e) && element_v(e) == v,
            Err(err) => r == Err::<Element, AtlasError>(err),
        },
{
    if is_blank(i.symbol_name.as_str()) {
        return Err(AtlasError::EmptyElementSymbolName);
    }
    let first_frame = normalize_symbol_first_frame(&i.symbol_type, i.first_frame);
    let loop_mode = normalize_symbol_loop_mode(&i.symbol_type, &i.loop_mode);
    Ok(
        Element {
            transform: i.transform,
            kind: ElementKind::Symbol(
                SymbolInstance { symbol_name: i.symbol_name.clone(), first_frame, loop_mode },
            ),
        },
    )
}

fn build_atlas_element(i: &RawAtlasInstance) -> (r: Result<Element, AtlasError>)
    ensures
        match atlas_element_spec(*i) {
            Ok(v) => r matches Ok(e) && element_v(e) == v,
            Err(err) => r == Err::<Element, AtlasError>(err),
        },
{
    if is_blank(i.frame_name.as_str()) {
        return Err(AtlasError::EmptyAtlasFrameName);
    }
    Ok(
        Element {
            transform: i.transform,
            kind: ElementKind::Atlas(AtlasInstance { frame_name: i.frame_name.clone() }),
        },
    )
}

fn build_element(e: &RawElement) -> (r: Result<Option<Element>, AtlasError>)
    ensures
        match element_spec(*e) {
            Ok(None) => r == Ok::<Option<Element>, AtlasError>(None),
            Ok(Some(v)) => r matches Ok(Some(x)) && element_v(x) == v,
            Err(err) => r == Err::<Option<Element>, AtlasError>(err),
        },
{
    match (&e.symbol_instance, &e.atlas_instance) {
        (Some(_), Some(_)) => Err(AtlasError::BothInstances),
        (Some(i), None) => match build_symbol_element(i) {
            Ok(x) => Ok(Some(x)),
            Err(err) => Err(err),
        },
        (None, Some(i)) => match build_atlas_element(i) {
            Ok(x) => Ok(Some(x)),
            Err(err) => Err(err),
        },
        (None, None) => Ok(None),
    }
}

pub open spec fn elements_v(es: Seq<Element>) -> Seq<ElementV> {
    es.map_values(|e: Element| element_v(e))
}

fn build_elements(es: &Vec<RawElement>) -> (r: Result<Vec<Element>, AtlasError>)
    ensures
        match elements_spec(es@) {
            Ok(v) => r matches Ok(out) && elements_v(out@) == v,
            Err(err) => r == Err::<Vec<Element>, AtlasError>(err),
        },
{
    let ghost step = element_step();
    let mut out: Vec<Element> = Vec::new();
    let mut i: usize = 0;
    proof {
        lemma_fold_start(es@, step);
        assert(elements_v(out@) =~= Seq::<ElementV>::empty());
    }
    while i < es.len()
        invariant
            i <= es.len(),
            step == element_step(),
            fold_steps(es@.take(i as int), step) == Ok::<Seq<ElementV>, AtlasError>(elements_v(out@)),
        decreases es.len() - i,
    {
        let ghost prev = elements_v(out@);
        proof {
            lemma_fold_step(es@, step, i as int);
        }
        match build_element(&es[i]) {
            Err(err) => {
                proof {
                    lemma_fold_prefix_err(es@, step, i + 1);
                }
                return Err(err);
            },
            Ok(None) => {
                assert(step(es@[i as int]) == Ok::<Seq<ElementV>, AtlasError>(Seq::empty()));
                assert(elements_v(out@) + Seq::<ElementV>::empty() =~= elements_v(out@));
            },
            Ok(Some(x)) => {
                assert(step(es@[i as int]) == Ok::<Seq<ElementV>, AtlasError>(seq![element_v(x)]));
                out.push(x);
                assert(elements_v(out@) =~= prev + seq![element_v(x)]);
            },
        }
        i = i + 1;
    }
    proof {
        lemma_fold_end(es@, step);
    }
    Ok(out)
}

fn build_frame(f: &RawFrame) -> (r: Result<TimelineFrame, AtlasError>)
    ensures
        match frame_spec(*f) {
            Ok(v) => r matches Ok(x) && frame_v(x) == v,
            Err(err) => r == Err::<TimelineFrame, AtlasError>(err),
        },
{
    if f.duration == 0 {
        return Err(AtlasError::ZeroFrameDuration(f.index));
    }
    match build_elements(&f.elements) {
        Err(err) => Err(err),
        Ok(elements) => {
            let x = TimelineFrame { index: f.index, duration: f.duration, elements };
            assert(frame_v(x).elements == elements_v(x.elements@));
            Ok(x)
        },
    }
}

pub open spec fn frames_v(fs: Seq<TimelineFrame>) -> Seq<FrameV> {
    fs.map_values(|f: TimelineFrame| frame_v(f))
}

fn build_layer(l: &RawLayer) -> (r: Result<TimelineLayer, AtlasError>)
    ensures
        match layer_spec(*l) {
            Ok(v) => r matches Ok(x) && layer_v(x) == v,
            Err(err) => r == Err::<TimelineLayer, AtlasError>(err),
        },
{
    let ghost step = frame_step();
    let mut out: Vec<TimelineFrame> = Vec::new();
    let mut i: usize = 0;
    proof {
        lemma_fold_start(l.frames@, step);
        assert(frames_v(out@) =~= Seq::<FrameV>::empty());
    }
    while i < l.frames.len()
        invariant
            i <= l.frames.len(),
            step == frame_step(),
            fold_steps(l.frames@.take(i as int), step) == Ok::<Seq<FrameV>, AtlasError>(frames_v(out@)),
        decreases l.frames.len() - i,
    {
        let ghost prev = frames_v(out@);
        proof {
            lemma_fold_step(l.frames@, step, i as int);
        }
        match build_frame(&l.frames[i]) {
            Err(err) => {
                proof {
                    lemma_fold_prefix_err(l.frames@, step, i + 1);
                }
                return Err(err);
            },
            Ok(x) => {
                assert(step(l.frames@[i as int]) == Ok::<Seq<FrameV>, AtlasError>(seq![frame_v(x)]));
                out.push(x);
                assert(frames_v(out@) =~= prev + seq![frame_v(x)]);
            },
        }
        i = i + 1;
    }
    proof {
        lemma_fold_end(l.frames@, step);
    }
    let ghost unsorted = out@;
    let sorted = stable_sort_by_key(out);
    proof {
        lemma_stable_sort_map(
            unsorted,
            |f: TimelineFrame| frame_v(f),
            |x: TimelineFrame| x.key_of(),
            |f: FrameV| f.index,
        );
        assert(stable_sort(unsorted, |x: TimelineFrame| x.key_of()).map_values(
            |f: TimelineFrame| frame_v(f),
        ) == frames_v(sorted@));
    }
    let name = opt_or_empty_string(&l.name);
    Ok(TimelineLayer { name, frames: sorted })
}

fn build_layers(ls: &Vec<RawLayer>) -> (r: Result<Vec<TimelineLayer>, AtlasError>)
    ensures
        match layers_spec(ls@) {
            Ok(v) => r matches Ok(out) && layers_v(out@) == v,
            Err(err) => r == Err::<Vec<TimelineLayer>, AtlasError>(err),
        },
{
    let ghost step = layer_step();
    let mut out: Vec<TimelineLayer> = Vec::new();
    let mut i: usize = 0;
    proof {
        lemma_fold_start(ls@, step);
        assert(layers_v(out@) =~= Seq::<LayerV>::empty());
    }
    while i < ls.len()
        invariant
            i <= ls.len(),
            step == layer_step(),
            fold_steps(ls@.take(i as int), step) == Ok::<Seq<LayerV>, AtlasError>(layers_v(out@)),
        decreases ls.len() - i,
    {
        let ghost prev = layers_v(out@);
        proof {
            lemma_fold_step(ls@, step, i as int);
        }
        match build_layer(&ls[i]) {
            Err(err) => {
                proof {
                    lemma_fold_prefix_err(ls@, step, i + 1);
                }
                return Err(err);
            },
            Ok(x) => {
                assert(step(ls@[i as int]) == Ok::<Seq<LayerV>, AtlasError>(seq![layer_v(x)]));
                out.push(x);
                assert(layers_v(out@) =~= prev + seq![layer_v(x)]);
            },
        }
        i = i + 1;
    }
    proof {
        lemma_fold_end(ls@, step);
    }
    Ok(out)
}


pub open spec fn labels_v(ls: Seq<AnimationLabel>) -> Seq<LabelV> {
    ls.map_values(|l: AnimationLabel| label_v(l))
}

fn build_frame_label(f: &RawFrame) -> (r: Result<Option<AnimationLabel>, AtlasError>)
    ensures
        match frame_label_spec(*f) {
            Ok(None) => r == Ok::<Option<AnimationLabel>, AtlasError>(None),
            Ok(Some(v)) => r matches Ok(Some(x)) && label_v(x) == v,
            Err(err) => r == Err::<Option<AnimationLabel>, AtlasError>(err),
        },
{
    match &f.name {
        None => Ok(None),
        Some(n) => {
            if is_blank(n.as_str()) {
                return Err(AtlasError::EmptyLabelName);
            }
            if f.duration == 0 {
                return Err(AtlasError::ZeroLabelDuration(n.clone()));
            }
            Ok(Some(AnimationLabel { name: n.clone(), index: f.index, duration: f.duration }))
        },
    }
}

/// The labels of a timeline: named keyframes in layer order, stably ordered by start frame.
pub fn timeline_labels(layers: &Vec<RawLayer>) -> (r: Result<Vec<AnimationLabel>, AtlasError>)
    ensures
        match labels_spec(layers@) {
            Ok(v) => r matches Ok(out) && labels_v(out@) == v,
            Err(err) => r == Err::<Vec<AnimationLabel>, AtlasError>(err),
        },
{
    let ghost outer = layer_label_step();
    let ghost inner = frame_label_step();
    let mut out: Vec<AnimationLabel> = Vec::new();
    let mut i: usize = 0;
    proof {
        lemma_fold_start(layers@, outer);
        assert(labels_v(out@) =~= Seq::<LabelV>::empty());
    }
    while i < layers.len()
        invariant
            i <= layers.len(),
            outer == layer_label_step(),
            inner == frame_label_step(),
            fold_steps(layers@.take(i as int), outer) == Ok::<Seq<LabelV>, AtlasError>(labels_v(out@)),
        decreases layers.len() - i,
    {
        let ghost before = labels_v(out@);
        proof {
            lemma_fold_step(layers@, outer, i as int);
        }
        let frames = &layers[i].frames;
        let ghost mut acc: Seq<LabelV> = Seq::empty();
        let mut j: usize = 0;
        proof {
            lemma_fold_start(frames@, inner);
            assert(before + acc =~= before);
        }
        while j < frames.len()
            invariant
                j <= frames.len(),
                i < layers.len(),
                outer == layer_label_step(),
                fold_steps(layers@.take(i as int), outer) == Ok::<Seq<LabelV>, AtlasError>(before),
                frames == layers@[i as int].frames,
                inner == frame_label_step(),
                labels_v(out@) == before + acc,
                fold_steps(frames@.take(j as int), inner) == Ok::<Seq<LabelV>, AtlasError>(acc),
            decreases frames.len() - j,
        {
            proof {
                lemma_fold_step(frames@, inner, j as int);
            }
            match build_frame_label(&frames[j]) {
                Err(err) => {
                    proof {
                        lemma_fold_step(layers@, outer, i as int);
                        lemma_fold_prefix_err(frames@, inner, j + 1);
                        assert(outer(layers@[i as int]) == Err::<Seq<LabelV>, AtlasError>(err));
                        lemma_fold_prefix_err(layers@, outer, i + 1);
                    }
                    return Err(err);
                },
                Ok(None) => {
                    assert(inner(frames@[j as int]) == Ok::<Seq<LabelV>, AtlasError>(Seq::empty()));
                    assert(acc + Seq::<LabelV>::empty() =~= acc);
                },
                Ok(Some(x)) => {
                    assert(inner(frames@[j as int]) == Ok::<Seq<LabelV>, AtlasError>(seq![label_v(x)]));
                    let ghost prev = labels_v(out@);
                    out.push(x);
                    proof {
                        assert(labels_v(out@) =~= prev + seq![label_v(x)]);
                        assert(before + (acc + seq![label_v(x)]) =~= (before + acc) + seq![label_v(x)]);
                        acc = acc + seq![label_v(x)];
                    }
                },
            }
            j = j + 1;
        }
        proof {
            lemma_fold_end(frames@, inner);
            assert(outer(layers@[i as int]) == Ok::<Seq<LabelV>, AtlasError>(acc));
        }
        i = i + 1;
    }
    proof {
        lemma_fold_end(layers@, outer);
    }
    let ghost unsorted = out@;
    let sorted = stable_sort_by_key(out);
    proof {
        lemma_stable_sort_map(
            unsorted,
            |l: AnimationLabel| label_v(l),
            |x: AnimationLabel| x.key_of(),
            |l: LabelV| l.1,
        );
        assert(stable_sort(unsorted, |x: AnimationLabel| x.key_of()).map_values(
            |l: AnimationLabel| label_v(l),
        ) == labels_v(sorted@));
    }
    Ok(sorted)
}

/// The layers of a timeline, each with its keyframes ordered by start frame.
pub fn timeline_layers(layers: &Vec<RawLayer>) -> (r: Result<
    Vec<TimelineLayer>,
    AtlasError,
>)
    ensures
        match layers_spec(layers@) {
            Ok(v) => r matches Ok(out) && layers_v(out@) == v,
            Err(err) => r == Err::<Vec<TimelineLayer>, AtlasError>(err),
        },
{
    build_layers(layers)
}

pub open spec fn symbols_v(ss: Seq<Symbol>) -> Seq<SymbolV> {
    ss.map_values(|s: Symbol| symbol_v(s))
}

fn build_symbol(raw: &RawSymbol) -> (r: Result<Symbol, AtlasError>)
    ensures
        match symbol_spec(*raw) {
            Ok(v) => r matches Ok(x) && symbol_v(x) == v,
            Err(err) => r == Err::<Symbol, AtlasError>(err),
        },
{
    if is_blank(raw.name.as_str()) {
        return Err(AtlasError::EmptySymbolName);
    }
    let layers = match &raw.timeline {
        Some(t) => build_layers(&t.layers),
        None => {
            let empty: Vec<RawLayer> = Vec::new();
            assert(empty@ =~= Seq::<RawLayer>::empty());
            build_layers(&empty)
        },
    };
    match layers {
        Err(err) => Err(err),
        Ok(layers) => Ok(Symbol { name: raw.name.clone(), layers }),
    }
}

fn build_symbols(ss: &Vec<RawSymbol>) -> (r: Result<Vec<Symbol>, AtlasError>)
    ensures
        match symbols_spec(ss@) {
            Ok(v) => r matches Ok(out) && symbols_v(out@) == v,
            Err(err) => r == Err::<Vec<Symbol>, AtlasError>(err),
        },
{
    let ghost step = symbol_step();
    let mut out: Vec<Symbol> = Vec::new();
    let mut i: usize = 0;
    proof {
        lemma_fold_start(ss@, step);
        assert(symbols_v(out@) =~= Seq::<SymbolV>::empty());
    }
    while i < ss.len()
        invariant
            i <= ss.len(),
            step == symbol_step(),
            fold_steps(ss@.take(i as int), step) == Ok::<Seq<SymbolV>, AtlasError>(symbols_v(out@)),
        decreases ss.len() - i,
    {
        let ghost prev = symbols_v(out@);
        proof {
            lemma_fold_step(ss@, step, i as int);
        }
        match build_symbol(&ss[i]) {
            Err(err) => {
                proof {
                    lemma_fold_prefix_err(ss@, step, i + 1);
                }
                return Err(err);
            },
            Ok(x) => {
                assert(step(ss@[i as int]) == Ok::<Seq<SymbolV>, AtlasError>(seq![symbol_v(x)]));
                out.push(x);
                assert(symbols_v(out@) =~= prev + seq![symbol_v(x)]);
            },
        }
        i = i + 1;
    }
    proof {
        lemma_fold_end(ss@, step);
    }
    Ok(out)
}

fn clone_element(e: &Element) -> (r: Element)
    ensures
        element_v(r) == element_v(*e),
{
    let kind = match &e.kind {
        ElementKind::Symbol(i) => ElementKind::Symbol(
            SymbolInstance {
                symbol_name: i.symbol_name.clone(),
                first_frame: i.first_frame,
                loop_mode: opt_clone(&i.loop_mode),
            },
        ),
        ElementKind::Atlas(i) => ElementKind::Atlas(AtlasInstance { frame_name: i.frame_name.clone() }),
    };
    Element { transform: e.transform, kind }
}

fn clone_frame(f: &TimelineFrame) -> (r: TimelineFrame)
    ensures
        frame_v(r) == frame_v(*f),
{
    let mut elements: Vec<Element> = Vec::new();
    let mut i: usize = 0;
    while i < f.elements.len()
        invariant
            i <= f.elements.len(),
            elements_v(elements@) == elements_v(f.elements@.take(i as int)),
        decreases f.elements.len() - i,
    {
        let ghost prev = elements_v(elements@);
        let e = clone_element(&f.elements[i]);
        elements.push(e);
        assert(elements_v(elements@) =~= prev + seq![element_v(e)]);
        assert(elements_v(f.elements@.take(i + 1)) =~= elements_v(f.elements@.take(i as int)) + seq![element_v(f.elements@[i as int])]);
        i = i + 1;
    }
    assert(f.elements@.take(f.elements.len() as int) =~= f.elements@);
    let r = TimelineFrame { index: f.index, duration: f.duration, elements };
    assert(frame_v(r).elements =~= frame_v(*f).elements);
    r
}

fn clone_layer(l: &TimelineLayer) -> (r: TimelineLayer)
    ensures
        layer_v(r) == layer_v(*l),
{
    let mut frames: Vec<TimelineFrame> = Vec::new();
    let mut i: usize = 0;
    while i < l.frames.len()
        invariant
            i <= l.frames.len(),
            frames_v(frames@) == frames_v(l.frames@.take(i as int)),
        decreases l.frames.len() - i,
    {
        let ghost prev = frames_v(frames@);
        let f = clone_frame(&l.frames[i]);
        frames.push(f);
        assert(frames_v(frames@) =~= prev + seq![frame_v(f)]);
        assert(frames_v(l.frames@.take(i + 1)) =~= frames_v(l.frames@.take(i as int)) + seq![frame_v(l.frames@[i as int])]);
        i = i + 1;
    }
    assert(l.frames@.take(l.frames.len() as int) =~= l.frames@);
    let r = TimelineLayer { name: l.name.clone(), frames };
    assert(layer_v(r).frames =~= layer_v(*l).frames);
    r
}

fn clone_layers(ls: &Vec<TimelineLayer>) -> (r: Vec<TimelineLayer>)
    ensures
        layers_v(r@) == layers_v(ls@),
{
    let mut out: Vec<TimelineLayer> = Vec::new();
    let mut i: usize = 0;
    while i < ls.len()
        invariant
            i <= ls.len(),
            layers_v(out@) == layers_v(ls@.take(i as int)),
        decreases ls.len() - i,
    {
        let ghost prev = layers_v(out@);
        let l = clone_layer(&ls[i]);
        out.push(l);
        assert(layers_v(out@) =~= prev + seq![layer_v(l)]);
        assert(layers_v(ls@.take(i + 1)) =~= layers_v(ls@.take(i as int)) + seq![layer_v(ls@[i as int])]);
        i = i + 1;
    }
    assert(ls@.take(ls.len() as int) =~= ls@);
    out
}

impl Animation {
    /// Builds an animation from a compact export.
    pub fn from_compact(raw: &RawAnimationFile) -> (r: Result<Animation, AtlasError>)
        ensures
            match compact_spec(*raw) {
                Ok(v) => r matches Ok(a) && animation_v(a) == v,
                Err(err) => r == Err::<Animation, AtlasError>(err),
            },
    {
        let labels = match timeline_labels(&raw.timeline.layers) {
            Err(err) => {
                return Err(err);
            },
            Ok(l) => l,
        };
        let layers = match build_layers(&raw.timeline.layers) {
            Err(err) => {
                return Err(err);
            },
            Ok(l) => l,
        };
        let stage = match &raw.stage_instance {
            None => None,
            Some(i) => match build_symbol_element(i) {
                Err(err) => {
                    return Err(err);
                },
                Ok(_) => Some(i.transform),
            },
        };
        let symbols = match &raw.symbol_dictionary {
            Some(d) => build_symbols(d),
            None => match &raw.top_level_symbol_dictionary {
                Some(d) => build_symbols(d),
                None => {
                    let empty: Vec<RawSymbol> = Vec::new();
                    assert(empty@ =~= Seq::<RawSymbol>::empty());
                    build_symbols(&empty)
                },
            },
        };
        let symbols = match symbols {
            Err(err) => {
                return Err(err);
            },
            Ok(s) => s,
        };
        Ok(
            Animation {
                name: opt_or_empty_string(&raw.name),
                symbol_name: opt_or_empty_string(&raw.symbol_name),
                labels,
                layers,
                symbols,
                stage,
            },
        )
    }

    /// Builds an animation from a verbose export.
    pub fn from_verbose(raw: &RawVerboseFile) -> (r: Result<Animation, AtlasError>)
        ensures
            match verbose_spec(*raw) {
                Ok(v) => r matches Ok(a) && animation_v(a) == v,
                Err(err) => r == Err::<Animation, AtlasError>(err),
            },
    {
        let symbol_name = opt_or_empty_string(&raw.symbol_name);
        let labels = match timeline_labels(&raw.timeline.layers) {
            Err(err) => {
                return Err(err);
            },
            Ok(l) => l,
        };
        let layers = match build_layers(&raw.timeline.layers) {
            Err(err) => {
                return Err(err);
            },
            Ok(l) => l,
        };
        let symbols = match &raw.symbol_dictionary {
            Some(d) => build_symbols(d),
            None => {
                let empty: Vec<RawSymbol> = Vec::new();
                assert(empty@ =~= Seq::<RawSymbol>::empty());
                build_symbols(&empty)
            },
        };
        let mut symbols = match symbols {
            Err(err) => {
                return Err(err);
            },
            Ok(s) => s,
        };
        let ghost built = symbols_v(symbols@);
        if !is_blank(symbol_name.as_str()) {
            let mut found = false;
            let mut k: usize = 0;
            assert(!has_symbol_named(built.take(0), symbol_name@));
            while k < symbols.len()
                invariant
                    k <= symbols.len(),
                    symbols_v(symbols@) == built,
                    found == has_symbol_named(built.take(k as int), symbol_name@),
                decreases symbols.len() - k,
            {
                assert(built[k as int] == symbol_v(symbols@[k as int]));
                let ghost pre = built.take(k as int);
                assert(built.take(k + 1) =~= pre.push(built[k as int]));
                if str_eq(symbols[k].name.as_str(), symbol_name.as_str()) {
                    found = true;
                    assert(built.take(k + 1)[k as int] == built[k as int]);
                } else {
                    proof {
                        let nxt = built.take(k + 1);
                        if has_symbol_named(nxt, symbol_name@) {
                            let q = choose|q: int| 0 <= q < nxt.len() && (#[trigger] nxt[q]).name == symbol_name@;
                            if q < k {
                                assert(nxt[q] == pre[q]);
                            }
                        }
                    }
                }
                assert(has_symbol_named(pre, symbol_name@) ==> has_symbol_named(built.take(k + 1), symbol_name@)) by {
                    if has_symbol_named(pre, symbol_name@) {
                        let q = choose|q: int| 0 <= q < pre.len() && (#[trigger] pre[q]).name == symbol_name@;
                        assert(built.take(k + 1)[q] == pre[q]);
                    }
                }
                k = k + 1;
            }
            assert(built.take(k as int) =~= built);
            if !found {
                let root = Symbol { name: symbol_name.clone(), layers: clone_layers(&layers) };
                symbols.push(root);
                assert(symbols_v(symbols@) =~= built.push(symbol_v(root)));
            }
        }
        let ghost root = opt_or_empty(raw.symbol_name);
        let ghost add_root = !is_blank_seq(root) && !has_symbol_named(built, root);
        assert(symbols_v(symbols@) == if add_root {
            built.push(SymbolV { name: root, layers: layers_v(layers@) })
        } else {
            built
        });
        let a = Animation {
            name: opt_or_empty_string(&raw.name),
            symbol_name,
            labels,
            layers,
            symbols,
            stage: None,
        };
        assert(animation_v(a).symbols == symbols_v(a.symbols@));
        assert(animation_v(a).labels == labels_v(a.labels@));
        assert(labels_spec(raw.timeline.layers@) == Ok::<Seq<LabelV>, AtlasError>(labels_v(a.labels@)));
        assert(layers_spec(raw.timeline.layers@) == Ok::<Seq<LayerV>, AtlasError>(layers_v(a.layers@)));
        assert(symbols_spec(match raw.symbol_dictionary {
                    Some(d) => d@,
                    None => Seq::empty(),
                }) == Ok::<Seq<SymbolV>, AtlasError>(built));
        assert(verbose_spec(*raw) == Ok::<AnimationV, AtlasError>(animation_v(a)));
        Ok(a)
    }
}

} // verus!
