//! The per-image loading state machine, and how a loaded image is sized.
use vstd::prelude::*;

verus! {

/// Where one image stands in its load.
#[derive(Debug)]
pub enum ImageState {
    NotRequested,
    Requested,
    Decoding,
    Succeeded { width: u32, height: u32, pixels: Vec<u8> },
    Failed { reason: String },
}

/// The mathematical value of an `ImageState`.
pub enum ImageStateView {
    NotRequested,
    Requested,
    Decoding,
    Succeeded { width: u32, height: u32, pixels: Seq<u8> },
    Failed { reason: Seq<char> },
}

impl View for ImageState {
    type V = ImageStateView;

    open spec fn view(&self) -> ImageStateView {
        match self {
            ImageState::NotRequested => ImageStateView::NotRequested,
            ImageState::Requested => ImageStateView::Requested,
            ImageState::Decoding => ImageStateView::Decoding,
            ImageState::Succeeded { width, height, pixels } => ImageStateView::Succeeded {
                width: *width,
                height: *height,
                pixels: pixels@,
            },
            ImageState::Failed { reason } => ImageStateView::Failed { reason: reason@ },
        }
    }
}

/// What happens to an image while it loads.
#[derive(Debug)]
pub enum ImageEvent {
    /// The reader asked for the image.
    LoadRequested,
    /// The fetch brought these bytes.
    Fetched(Vec<u8>),
    /// The fetch failed, for this reason.
    FetchFailed(String),
    /// The bytes decoded to an image.
    Decoded { width: u32, height: u32, pixels: Vec<u8> },
    /// The bytes did not decode, for this reason.
    DecodeFailed(String),
}

/// The work that the owner of the image starts after a transition.
#[derive(Debug)]
pub enum ImageCommand {
    Nothing,
    /// Fetch the image's address.
    Fetch,
    /// Decode these bytes.
    Decode(Vec<u8>),
}

/// The state after `e` in state `s`. An event that does not fit the state,
/// a further request included, leaves it as it is.
pub open spec fn step(s: ImageStateView, e: ImageEvent) -> ImageStateView {
    match (s, e) {
        (ImageStateView::NotRequested, ImageEvent::LoadRequested) => ImageStateView::Requested,
        (ImageStateView::Requested, ImageEvent::Fetched(_)) => ImageStateView::Decoding,
        (ImageStateView::Requested, ImageEvent::FetchFailed(reason)) => ImageStateView::Failed {
            reason: reason@,
        },
        (ImageStateView::Decoding, ImageEvent::Decoded { width, height, pixels }) =>
            ImageStateView::Succeeded { width, height, pixels: pixels@ },
        (ImageStateView::Decoding, ImageEvent::DecodeFailed(reason)) => ImageStateView::Failed {
            reason: reason@,
        },
        _ => s,
    }
}

/// Whether a load has ended, well or not.
pub open spec fn is_terminal(s: ImageStateView) -> bool {
    s is Succeeded || s is Failed
}

/// How far a load has come.
pub open spec fn progress(s: ImageStateView) -> int {
    match s {
        ImageStateView::NotRequested => 0,
        ImageStateView::Requested => 1,
        ImageStateView::Decoding => 2,
        _ => 3,
    }
}

/// The state after each of `events` in turn, from `s`.
pub open spec fn run(s: ImageStateView, events: Seq<ImageEvent>) -> ImageStateView
    decreases events.len(),
{
    if events.len() == 0 {
        s
    } else {
        step(run(s, events.drop_last()), events.last())
    }
}

impl ImageState {
    /// Applies one event in place and says what work to start: a fetch on the
    /// first request, a decode once the bytes have come, else nothing.
    pub fn apply(&mut self, event: ImageEvent) -> (c: ImageCommand)
        ensures
            final(self)@ == step(old(self)@, event),
            match c {
                ImageCommand::Fetch => old(self)@ is NotRequested && event is LoadRequested,
                ImageCommand::Decode(bytes) => old(self)@ is Requested && event == ImageEvent::Fetched(
                    bytes,
                ),
                ImageCommand::Nothing => !(old(self)@ is NotRequested && event is LoadRequested)
                    && !(old(self)@ is Requested && event is Fetched),
            },
    {
        match (&*self, event) {
            (ImageState::NotRequested, ImageEvent::LoadRequested) => {
                *self = ImageState::Requested;
                ImageCommand::Fetch
            },
            (ImageState::Requested, ImageEvent::Fetched(bytes)) => {
                *self = ImageState::Decoding;
                ImageCommand::Decode(bytes)
            },
            (ImageState::Requested, ImageEvent::FetchFailed(reason)) => {
                *self = ImageState::Failed { reason };
                ImageCommand::Nothing
            },
            (ImageState::Decoding, ImageEvent::Decoded { width, height, pixels }) => {
                *self = ImageState::Succeeded { width, height, pixels };
                ImageCommand::Nothing
            },
            (ImageState::Decoding, ImageEvent::DecodeFailed(reason)) => {
                *self = ImageState::Failed { reason };
                ImageCommand::Nothing
            },
            _ => ImageCommand::Nothing,
        }
    }
}

/// No event moves a load backwards, and an ended load stays as it is.
pub proof fn lemma_step_monotonic(s: ImageStateView, e: ImageEvent)
    ensures
        progress(step(s, e)) >= progress(s),
        is_terminal(s) ==> step(s, e) == s,
{
}

/// Once a load has ended, no later event of any sequence changes its state:
/// in particular it never goes back to `NotRequested` or `Requested`.
pub proof fn lemma_terminal_is_final(s: ImageStateView, events: Seq<ImageEvent>, i: int, j: int)
    requires
        0 <= i <= j <= events.len(),
        is_terminal(run(s, events.take(i))),
    ensures
        run(s, events.take(j)) == run(s, events.take(i)),
        progress(run(s, events.take(j))) >= progress(run(s, events.take(i))),
    decreases j - i,
{
    if j > i {
        lemma_terminal_is_final(s, events, i, j - 1);
        assert(events.take(j).drop_last() == events.take(j - 1));
    }
}

/// The largest width, in units, that a loaded image is shown at.
pub const MAX_IMAGE_WIDTH: u32 = 2048;

/// The width an image of `width` is shown at in `available` units of room:
/// its own width, capped by the largest width and by the room.
pub open spec fn shown_width(width: u32, available: u32) -> u32 {
    let cap = if available < MAX_IMAGE_WIDTH {
        available
    } else {
        MAX_IMAGE_WIDTH
    };
    if width < cap {
        width
    } else {
        cap
    }
}

/// The size a loaded image of `width` by `height` is shown at: the capped
/// width, and the height that keeps the image's aspect ratio (rounded down).
pub fn display_size(width: u32, height: u32, available: u32) -> (r: (u32, u32))
    ensures
        r.0 == shown_width(width, available),
        width == 0 ==> r.1 == 0,
        width > 0 ==> r.1 == (r.0 as int) * (height as int) / (width as int),
{
    let cap = if available < MAX_IMAGE_WIDTH {
        available
    } else {
        MAX_IMAGE_WIDTH
    };
    let w = if width < cap {
        width
    } else {
        cap
    };
    if width == 0 {
        return (w, 0);
    }
    assert((w as int) * (height as int) <= 0xffff_ffff * 0xffff_ffff) by (nonlinear_arith)
        requires
            w <= 0xffff_ffff,
            height <= 0xffff_ffff,
    ;
    let product: u64 = (w as u64) * (height as u64);
    let h: u64 = product / (width as u64);
    assert(h <= height) by (nonlinear_arith)
        requires
            h == product / (width as u64),
            product == (w as u64) * (height as u64),
            w <= width,
            width > 0,
    {
        assert(product <= (width as u64) * (height as u64));
    }
    (w, h as u32)
}

} // verus!
