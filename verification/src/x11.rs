//! The decisions of the X11 platform layer: which GLX framebuffer
//! configuration a window gets, and what each X event means to the engine.
//! The platform layer makes the X and GLX calls and hands over the plain
//! values they returned.

use vstd::prelude::*;
use crate::events::{Event, KeyCode, MouseButton};

verus! {

/// What GLX reports of one framebuffer configuration.
#[derive(Debug, Clone, Copy, PartialEq, Eq, Structural)]
pub struct FbConfigInfo {
    /// Whether a visual can be obtained from it.
    pub has_visual: bool,
    /// Its `GLX_SAMPLE_BUFFERS` attribute (non-zero when multisampled).
    pub sample_buffers: i32,
    /// Its `GLX_SAMPLES` attribute.
    pub samples: i32,
}

/// Why no framebuffer configuration was selected.
#[derive(Debug, Clone, Copy, PartialEq, Eq, Structural)]
pub enum GlxSelectError {
    /// GLX is older than 1.3.
    VersionTooLow,
    /// GLX offered no configuration.
    NoConfigs,
    /// No configuration has a visual.
    NoVisual,
}

/// Whether GLX version `v` is older than 1.3.
pub open spec fn version_too_low(v: (i32, i32)) -> bool {
    v.0 < 1 || (v.0 == 1 && v.1 < 3)
}

/// The first configuration that has a visual.
pub open spec fn first_visual(c: Seq<FbConfigInfo>) -> Option<int>
    decreases c.len(),
{
    if c.len() == 0 {
        None
    } else {
        match first_visual(c.drop_last()) {
            Some(i) => Some(i),
            None => if c.last().has_visual {
                Some(c.len() - 1)
            } else {
                None
            },
        }
    }
}

/// Whether configuration `i` competes for selection: the first one with a
/// visual, and every later multisampled one with a visual.
pub open spec fn competes(c: Seq<FbConfigInfo>, first: int, i: int) -> bool {
    i == first || (first < i < c.len() && c[i].has_visual && c[i].sample_buffers != 0)
}

/// Chooses the framebuffer configuration for a window among `configs`, as
/// GLX offers them: the first one with a visual, unless a later
/// multisampled one with a visual has more samples; among those with the
/// most samples, the earliest.
pub fn select_fb_config(version: (i32, i32), configs: &Vec<FbConfigInfo>) -> (r: Result<
    usize,
    GlxSelectError,
>)
    ensures
        version_too_low(version) ==> r == Err::<usize, GlxSelectError>(GlxSelectError::VersionTooLow),
        !version_too_low(version) && configs@.len() == 0 ==> r == Err::<usize, GlxSelectError>(
            GlxSelectError::NoConfigs,
        ),
        !version_too_low(version) && configs@.len() > 0 && first_visual(configs@) is None ==> r
            == Err::<usize, GlxSelectError>(GlxSelectError::NoVisual),
        !version_too_low(version) && first_visual(configs@) is Some ==> r is Ok,
        r matches Ok(b) ==> {
            let c = configs@;
            let f = first_visual(c)->0;
            &&& !version_too_low(version)
            &&& first_visual(c) is Some
            &&& b < c.len()
            &&& c[b as int].has_visual
            &&& competes(c, f, b as int)
            &&& forall|i: int| #[trigger] competes(c, f, i) ==> c[i].samples <= c[b as int].samples
            &&& forall|i: int| 0 <= i < b && #[trigger] competes(c, f, i) ==> c[i].samples < c[b as int].samples
        },
{
    if version.0 < 1 || (version.0 == 1 && version.1 < 3) {
        return Err(GlxSelectError::VersionTooLow);
    }
    if configs.len() == 0 {
        return Err(GlxSelectError::NoConfigs);
    }
    let ghost c = configs@;
    let mut best: Option<usize> = None;
    let mut best_samples: i32 = 0;
    let mut i: usize = 0;
    while i < configs.len()
        invariant
            0 <= i <= configs.len(),
            c == configs@,
            first_visual(c.take(i as int)) is None <==> best is None,
            best matches Some(b) ==> {
                let f = first_visual(c.take(i as int))->0;
                &&& b < i
                &&& c[b as int].has_visual
                &&& competes(c, f, b as int)
                &&& best_samples == c[b as int].samples
                &&& forall|j: int| 0 <= j < i && #[trigger] competes(c, f, j) ==> c[j].samples <= best_samples
                &&& forall|j: int| 0 <= j < b && #[trigger] competes(c, f, j) ==> c[j].samples < best_samples
            },
        decreases configs.len() - i,
    {
        let x = configs[i];
        proof {
            lemma_first_visual_step(c, i as int);
        }
        if x.has_visual {
            match best {
                None => {
                    best = Some(i);
                    best_samples = x.samples;
                },
                Some(_) => {
                    if x.sample_buffers != 0 && x.samples > best_samples {
                        best = Some(i);
                        best_samples = x.samples;
                    }
                },
            }
        }
        i = i + 1;
    }
    proof {
        assert(c.take(c.len() as int) =~= c);
        lemma_first_visual_bounds(c);
        if let Some(b) = best {
            let f = first_visual(c)->0;
            assert forall|j: int| #[trigger] competes(c, f, j) implies c[j].samples <= c[b as int].samples by {
                assert(0 <= j < i);
            }
        }
    }
    match best {
        Some(b) => Ok(b),
        None => Err(GlxSelectError::NoVisual),
    }
}

/// Looking at one more configuration: the first one with a visual stays
/// the first, or, when there was none, it is the new one if it has a visual.
proof fn lemma_first_visual_step(c: Seq<FbConfigInfo>, i: int)
    requires
        0 <= i < c.len(),
    ensures
        first_visual(c.take(i + 1)) == match first_visual(c.take(i)) {
            Some(f) => Some(f),
            None => if c[i].has_visual {
                Some(i)
            } else {
                None
            },
        },
        first_visual(c.take(i)) matches Some(f) ==> 0 <= f < i && c[f].has_visual,
{
    assert(c.take(i + 1).drop_last() =~= c.take(i));
    lemma_first_visual_bounds(c.take(i));
    if let Some(f) = first_visual(c.take(i)) {
        assert(c.take(i)[f] == c[f]);
    }
}

proof fn lemma_first_visual_bounds(c: Seq<FbConfigInfo>)
    ensures
        first_visual(c) matches Some(f) ==> 0 <= f < c.len() && c[f].has_visual,
    decreases c.len(),
{
    if c.len() > 0 {
        lemma_first_visual_bounds(c.drop_last());
        if let Some(f) = first_visual(c.drop_last()) {
            assert(c.drop_last()[f] == c[f]);
        }
    }
}

/// The fields of an X event that the engine reads; key codes and mouse
/// buttons already converted by the platform layer, pointer coordinates
/// given as the engine's scalar `F`.
pub enum XEventData<F> {
    /// A client message, with the first long of its data.
    ClientMessage(i64),
    Expose,
    KeyPress(KeyCode),
    KeyRelease(KeyCode),
    ButtonPress(MouseButton),
    ButtonRelease(MouseButton),
    MotionNotify { x: F, y: F },
    /// The window's configuration changed; its new width and height.
    ConfigureNotify { width: i32, height: i32 },
    /// Any other event, by its type number.
    Other(i32),
}

/// What an X event means to the engine.
pub enum XEventOutcome<F> {
    /// The window is asked to close.
    Close,
    /// An input event for the objects.
    Send(Event<F>),
    /// The window now has this size.
    Resize { width: usize, height: usize },
    /// Nothing to do.
    Ignore,
}

/// The meaning of X event `e`, where `close_atom` is the window's
/// delete-window protocol atom: a client message carrying that atom asks
/// to close; key, button and motion events become input events; a
/// configuration change reports the window's new size (each dimension
/// taken as a `usize`, as a cast does); anything else is ignored.
pub open spec fn spec_translate<F>(e: XEventData<F>, close_atom: u64) -> XEventOutcome<F> {
    match e {
        XEventData::ClientMessage(data) => if data == close_atom as i64 {
            XEventOutcome::Close
        } else {
            XEventOutcome::Ignore
        },
        XEventData::Expose => XEventOutcome::Ignore,
        XEventData::KeyPress(k) => XEventOutcome::Send(Event::KeyPress(k)),
        XEventData::KeyRelease(k) => XEventOutcome::Send(Event::KeyRelease(k)),
        XEventData::ButtonPress(b) => XEventOutcome::Send(Event::MouseButtonPress(b)),
        XEventData::ButtonRelease(b) => XEventOutcome::Send(Event::MouseButtonRelease(b)),
        XEventData::MotionNotify { x, y } => XEventOutcome::Send(Event::MouseMove { x, y }),
        XEventData::ConfigureNotify { width, height } => XEventOutcome::Resize {
            width: width as usize,
            height: height as usize,
        },
        XEventData::Other(_) => XEventOutcome::Ignore,
    }
}

/// Translates one X event (see `spec_translate`).
pub fn translate_x_event<F>(e: XEventData<F>, close_atom: u64) -> (r: XEventOutcome<F>)
    ensures
        r == spec_translate(e, close_atom),
{
    match e {
        XEventData::ClientMessage(data) => {
            if data == close_atom as i64 {
                XEventOutcome::Close
            } else {
                XEventOutcome::Ignore
            }
        },
        XEventData::Expose => XEventOutcome::Ignore,
        XEventData::KeyPress(k) => XEventOutcome::Send(Event::KeyPress(k)),
        XEventData::KeyRelease(k) => XEventOutcome::Send(Event::KeyRelease(k)),
        XEventData::ButtonPress(b) => XEventOutcome::Send(Event::MouseButtonPress(b)),
        XEventData::ButtonRelease(b) => XEventOutcome::Send(Event::MouseButtonRelease(b)),
        XEventData::MotionNotify { x, y } => XEventOutcome::Send(Event::MouseMove { x, y }),
        XEventData::ConfigureNotify { width, height } => XEventOutcome::Resize {
            width: width as usize,
            height: height as usize,
        },
        XEventData::Other(_) => XEventOutcome::Ignore,
    }
}

/// Input events keep what they are through translation: a key press or
/// release is sent as a press or release of the same key, a button press
/// or release as a press or release of the same button, and a pointer
/// motion as a move to the same place; a configuration change reports its
/// size; only a client message carrying the close atom asks to close.
pub proof fn law_translation_keeps_input<F>(a: u64)
    ensures
        forall|k: KeyCode|
            #[trigger] spec_translate::<F>(XEventData::KeyPress(k), a) == XEventOutcome::<F>::Send(
                Event::KeyPress(k),
            ),
        forall|k: KeyCode|
            #[trigger] spec_translate::<F>(XEventData::KeyRelease(k), a) == XEventOutcome::<F>::Send(
                Event::KeyRelease(k),
            ),
        forall|b: MouseButton|
            #[trigger] spec_translate::<F>(XEventData::ButtonPress(b), a) == XEventOutcome::<F>::Send(
                Event::MouseButtonPress(b),
            ),
        forall|b: MouseButton|
            #[trigger] spec_translate::<F>(XEventData::ButtonRelease(b), a) == XEventOutcome::<F>::Send(
                Event::MouseButtonRelease(b),
            ),
        forall|x: F, y: F|
            #[trigger] spec_translate((XEventData::MotionNotify { x, y }), a) == XEventOutcome::Send(
                (Event::MouseMove { x, y }),
            ),
        forall|w: i32, h: i32|
            #[trigger] spec_translate::<F>((XEventData::ConfigureNotify { width: w, height: h }), a)
                == (XEventOutcome::<F>::Resize { width: w as usize, height: h as usize }),
        forall|e: XEventData<F>|
            #[trigger] spec_translate(e, a) is Close <==> (e matches XEventData::ClientMessage(d) && d
                == a as i64),
{
}

} // verus!
