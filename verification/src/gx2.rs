//! The order of the graphics calls of a frame: a render context moves from ready to the TV
//! and GamePad screens and to the end of the frame, and each move names the calls of the
//! graphics library to make; and how the attributes of a shader attribute group are
//! numbered.
use vstd::prelude::*;
use core::marker::PhantomData;

verus! {

/// A call of the graphics library that a move of a render context makes.
#[derive(Debug, Clone, Copy, PartialEq, Eq, Structural)]
pub enum GfxCall {
    /// Begin rendering a frame.
    BeginRender,
    /// Begin rendering to the TV.
    BeginRenderTv,
    /// Finish rendering to the TV.
    FinishRenderTv,
    /// Begin rendering to the GamePad.
    BeginRenderDrc,
    /// Finish rendering to the GamePad.
    FinishRenderDrc,
    /// Finish the frame.
    FinishRender,
}

/// A stage of a frame, with the calls made on entering and on leaving it.
pub trait State: Sized {
    /// The call made on entering the stage, if any.
    spec fn ready_call() -> Option<GfxCall>;

    /// The call made on leaving the stage, if any.
    spec fn finish_call() -> Option<GfxCall>;

    /// The call made on entering the stage, if any.
    fn on_ready() -> (r: Option<GfxCall>)
        ensures
            r == Self::ready_call(),
    ;

    /// The call made on leaving the stage, if any.
    fn on_finish() -> (r: Option<GfxCall>)
        ensures
            r == Self::finish_call(),
    ;
}

/// The frame is ready to render.
pub struct Ready;

/// The frame renders to the TV.
pub struct Tv;

/// The frame renders to the GamePad.
pub struct Drc;

/// A stage that renders to a screen: the TV or the GamePad.
pub trait TvOrDrc: State {

}

impl State for Ready {
    open spec fn ready_call() -> Option<GfxCall> {
        Some(GfxCall::BeginRender)
    }

    open spec fn finish_call() -> Option<GfxCall> {
        None
    }

    fn on_ready() -> (r: Option<GfxCall>) {
        Some(GfxCall::BeginRender)
    }

    fn on_finish() -> (r: Option<GfxCall>) {
        None
    }
}

impl State for Tv {
    open spec fn ready_call() -> Option<GfxCall> {
        Some(GfxCall::BeginRenderTv)
    }

    open spec fn finish_call() -> Option<GfxCall> {
        Some(GfxCall::FinishRenderTv)
    }

    fn on_ready() -> (r: Option<GfxCall>) {
        Some(GfxCall::BeginRenderTv)
    }

    fn on_finish() -> (r: Option<GfxCall>) {
        Some(GfxCall::FinishRenderTv)
    }
}

impl State for Drc {
    open spec fn ready_call() -> Option<GfxCall> {
        Some(GfxCall::BeginRenderDrc)
    }

    open spec fn finish_call() -> Option<GfxCall> {
        Some(GfxCall::FinishRenderDrc)
    }

    fn on_ready() -> (r: Option<GfxCall>) {
        Some(GfxCall::BeginRenderDrc)
    }

    fn on_finish() -> (r: Option<GfxCall>) {
        Some(GfxCall::FinishRenderDrc)
    }
}

impl TvOrDrc for Tv {

}

impl TvOrDrc for Drc {

}

/// The calls of an optional call: none or that one.
pub open spec fn calls_of(c: Option<GfxCall>) -> Seq<GfxCall> {
    match c {
        Some(x) => seq![x],
        None => seq![],
    }
}

/// Appends an optional call.
fn push_call(v: &mut Vec<GfxCall>, c: Option<GfxCall>)
    ensures
        final(v)@ == old(v)@ + calls_of(c),
{
    match c {
        Some(x) => {
            v.push(x);
        },
        None => {
            assert(old(v)@ + calls_of(c) =~= old(v)@);
        },
    }
}

/// The graphics of the program, from which frames are rendered.
pub struct RenderContext {
    _private: (),
}

impl RenderContext {
    /// The render context of the program.
    pub fn new() -> (r: RenderContext) {
        RenderContext { _private: () }
    }

    /// A frame, ready to render; no call is made.
    pub fn ready(&self) -> (r: Context<Ready>) {
        Context { _marker: PhantomData }
    }
}

/// A frame in the stage `S`.
pub struct Context<S: State> {
    _marker: PhantomData<S>,
}

impl<S: State> Context<S> {
    /// Moves the frame to stage `T`: the calls are those of leaving `S`, then of entering
    /// `T`.
    fn transition<T: State>(self) -> (r: (Context<T>, Vec<GfxCall>))
        ensures
            r.1@ == calls_of(S::finish_call()) + calls_of(T::ready_call()),
    {
        let mut calls: Vec<GfxCall> = Vec::new();
        push_call(&mut calls, S::on_finish());
        push_call(&mut calls, T::on_ready());
        assert(calls@ =~= calls_of(S::finish_call()) + calls_of(T::ready_call()));
        (Context { _marker: PhantomData }, calls)
    }
}

impl Context<Ready> {
    /// Moves on to render to the GamePad, see [`Context::transition`].
    pub fn drc(self) -> (r: (Context<Drc>, Vec<GfxCall>))
        ensures
            r.1@ == seq![GfxCall::BeginRenderDrc],
    {
        self.transition()
    }

    /// Moves on to render to the TV, see [`Context::transition`].
    pub fn tv(self) -> (r: (Context<Tv>, Vec<GfxCall>))
        ensures
            r.1@ == seq![GfxCall::BeginRenderTv],
    {
        self.transition()
    }
}

impl Context<Drc> {
    /// Moves on from the GamePad to render to the TV.
    pub fn tv(self) -> (r: (Context<Tv>, Vec<GfxCall>))
        ensures
            r.1@ == seq![GfxCall::FinishRenderDrc, GfxCall::BeginRenderTv],
    {
        self.transition()
    }

    /// Ends the frame: the GamePad rendering is finished, then the frame.
    pub fn finish(self) -> (r: Vec<GfxCall>)
        ensures
            r@ == seq![GfxCall::FinishRenderDrc, GfxCall::FinishRender],
    {
        let mut calls: Vec<GfxCall> = Vec::new();
        push_call(&mut calls, Drc::on_finish());
        calls.push(GfxCall::FinishRender);
        calls
    }
}

impl Context<Tv> {
    /// Moves on from the TV to render to the GamePad.
    pub fn drc(self) -> (r: (Context<Drc>, Vec<GfxCall>))
        ensures
            r.1@ == seq![GfxCall::FinishRenderTv, GfxCall::BeginRenderDrc],
    {
        self.transition()
    }

    /// Ends the frame: the TV rendering is finished, then the frame.
    pub fn finish(self) -> (r: Vec<GfxCall>)
        ensures
            r@ == seq![GfxCall::FinishRenderTv, GfxCall::FinishRender],
    {
        let mut calls: Vec<GfxCall> = Vec::new();
        push_call(&mut calls, Tv::on_finish());
        calls.push(GfxCall::FinishRender);
        calls
    }
}

/// Something that draws itself on the TV and on the GamePad.
pub trait Renderable {
    /// Draws on the TV.
    fn render_tv(&self, context: &Context<Tv>);

    /// Draws on the GamePad.
    fn render_drc(&self, context: &Context<Drc>);
}

/// The index of the `i`-th attribute of a shader attribute group, from the indices that
/// its fields name: a field's index is the one it names, or else the one after the
/// previous field's (0 for the first field).
pub open spec fn attribute_index(named: Seq<Option<u32>>, i: int) -> int
    decreases i + 1,
{
    if i < 0 {
        -1
    } else {
        match named[i] {
            Some(k) => k as int,
            None => attribute_index(named, i - 1) + 1,
        }
    }
}

/// The indices of the attributes of a shader attribute group, field by field, from the
/// indices that the fields name (see [`attribute_index`]); every index is below
/// `u32::MAX`, as the count goes on past the last field.
pub fn attribute_indices(named: &Vec<Option<u32>>) -> (r: Vec<u32>)
    requires
        forall|i: int| 0 <= i < named.len() ==> #[trigger] attribute_index(named@, i) < u32::MAX,
    ensures
        r.len() == named.len(),
        forall|i: int| 0 <= i < named.len() ==> r[i] == #[trigger] attribute_index(named@, i),
{
    let mut r: Vec<u32> = Vec::new();
    let mut next: u32 = 0;
    let mut i: usize = 0;
    while i < named.len()
        invariant
            i <= named.len(),
            r.len() == i,
            next == attribute_index(named@, i - 1) + 1,
            forall|i: int| 0 <= i < named.len() ==> #[trigger] attribute_index(named@, i) < u32::MAX,
            forall|j: int| 0 <= j < i ==> r[j] == #[trigger] attribute_index(named@, j),
        decreases named.len() - i,
    {
        let index = match named[i] {
            Some(k) => k,
            None => next,
        };
        assert(index == attribute_index(named@, i as int));
        r.push(index);
        next = index + 1;
        i = i + 1;
    }
    r
}

/// A field of a struct that describes a shader attribute group, as the derive reads it:
/// its name, whether its type is an attribute, and the name, index and offset that its
/// `name`, `index` and `offset` attributes give, if any.
#[derive(Debug, Clone, PartialEq, Eq)]
pub struct FieldAttrs {
    pub field: String,
    pub is_attribute: bool,
    pub name: Option<String>,
    pub index: Option<u32>,
    pub offset: Option<u32>,
}

/// The indices that the fields name.
pub open spec fn named_indices(fields: Seq<FieldAttrs>) -> Seq<Option<u32>> {
    fields.map_values(|f: FieldAttrs| f.index)
}

/// The name of the attribute of a field: the one its `name` attribute gives, or else the
/// field's own name.
pub open spec fn attribute_name(f: FieldAttrs) -> Seq<char> {
    match f.name {
        Some(n) => n@,
        None => f.field@,
    }
}

/// The offset of the attribute of a field: the one its `offset` attribute gives, or else 0.
pub open spec fn attribute_offset(f: FieldAttrs) -> u32 {
    match f.offset {
        Some(o) => o,
        None => 0,
    }
}

/// Whether the fields before `i` are all attributes.
pub open spec fn attributes_before(fields: Seq<FieldAttrs>, i: int) -> bool {
    forall|j: int| 0 <= j < i ==> (#[trigger] fields[j]).is_attribute
}

/// The attributes of a shader attribute group, field by field in order: each one's name,
/// index and offset (see [`attribute_name`], [`attribute_index`], [`attribute_offset`]).
/// A field whose type is not an attribute is refused: the result is the position of the
/// first such field. The index of every field read is below `u32::MAX`, as the count goes
/// on past it.
pub fn shader_attributes(fields: &Vec<FieldAttrs>) -> (r: Result<Vec<(String, u32, u32)>, usize>)
    requires
        forall|i: int|
            0 <= i < fields.len() && attributes_before(fields@, i + 1) ==> #[trigger] attribute_index(
                named_indices(fields@),
                i,
            ) < u32::MAX,
    ensures
        r matches Err(i) ==> (i < fields.len() && !fields[i as int].is_attribute
            && attributes_before(fields@, i as int)),
        r is Ok <==> attributes_before(fields@, fields.len() as int),
        r matches Ok(v) ==> v.len() == fields.len() && forall|i: int|
            0 <= i < fields.len() ==> (#[trigger] v[i]).0@ == attribute_name(fields[i]) && v[i].1
                == attribute_index(named_indices(fields@), i) && v[i].2 == attribute_offset(
                fields[i],
            ),
{
    let ghost named = named_indices(fields@);
    let mut out: Vec<(String, u32, u32)> = Vec::new();
    let mut next: u32 = 0;
    let mut i: usize = 0;
    while i < fields.len()
        invariant
            i <= fields.len(),
            named == named_indices(fields@),
            out.len() == i,
            next == attribute_index(named, i - 1) + 1,
            attributes_before(fields@, i as int),
            forall|k: int|
                0 <= k < fields.len() && attributes_before(fields@, k + 1) ==> #[trigger] attribute_index(
                    named,
                    k,
                ) < u32::MAX,
            forall|j: int|
                0 <= j < i ==> (#[trigger] out[j]).0@ == attribute_name(fields[j]) && out[j].1
                    == attribute_index(named, j) && out[j].2 == attribute_offset(fields[j]),
        decreases fields.len() - i,
    {
        let f = &fields[i];
        if !f.is_attribute {
            return Err(i);
        }
        assert(attributes_before(fields@, i + 1)) by {
            assert forall|j: int| 0 <= j < i + 1 implies (#[trigger] fields@[j]).is_attribute by {
                if j < i {
                    assert(fields@[j].is_attribute);
                }
            }
        }
        assert(named[i as int] == f.index);
        let index = match f.index {
            Some(k) => k,
            None => next,
        };
        assert(index == attribute_index(named, i as int));
        let name = match &f.name {
            Some(n) => n.clone(),
            None => f.field.clone(),
        };
        let offset = match f.offset {
            Some(o) => o,
            None => 0,
        };
        out.push((name, index, offset));
        next = index + 1;
        i = i + 1;
    }
    Ok(out)
}

} // verus!
