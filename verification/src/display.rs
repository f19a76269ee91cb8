//! Display-backend-independent presentation boundary and state.
use crate::framebuffer::{mono1_error, stride_of, valid_mono1, validate_mono1_pixels, Mono1FrameError};
use vstd::prelude::*;

verus! {

/// Why a remote frame was refused at the backend boundary.
#[derive(Clone, Debug, PartialEq, Eq, Structural)]
pub enum RemoteFrameError {
    /// The pixels are not a valid Mono1 payload for the extent.
    Pixels(Mono1FrameError),
    /// The stated row stride is not the Mono1 stride of the width.
    StrideMismatch { expected: usize, actual: usize },
}

/// Validated, borrowed remote Mono1 frame plus its presentation diagnostics.
#[derive(Clone, Copy, Debug)]
pub struct RemoteFrame<'a> {
    frame_id: u64,
    width: u16,
    height: u16,
    stride: usize,
    pixels: &'a [u8],
    receive_decode_us: u128,
}

impl<'a> RemoteFrame<'a> {
    #[verifier::type_invariant]
    closed spec fn is_valid_mono1(self) -> bool {
        &&& valid_mono1(self.width, self.height, self.pixels@)
        &&& self.stride == stride_of(self.width)
    }

    pub closed spec fn spec_frame_id(self) -> u64 {
        self.frame_id
    }

    pub closed spec fn spec_width(self) -> u16 {
        self.width
    }

    pub closed spec fn spec_height(self) -> u16 {
        self.height
    }

    pub closed spec fn spec_pixels(self) -> Seq<u8> {
        self.pixels@
    }

    pub closed spec fn spec_receive_decode_us(self) -> u128 {
        self.receive_decode_us
    }

    /// Accept a frame whose pixels are valid Mono1 for its extent and whose
    /// stride is the Mono1 stride.
    pub fn new(
        frame_id: u64,
        width: u16,
        height: u16,
        stride: usize,
        pixels: &'a [u8],
        receive_decode_us: u128,
    ) -> (result: Result<Self, RemoteFrameError>)
        ensures
            match result {
                Ok(frame) => {
                    &&& valid_mono1(width, height, pixels@)
                    &&& stride == stride_of(width)
                    &&& frame.spec_frame_id() == frame_id
                    &&& frame.spec_width() == width
                    &&& frame.spec_height() == height
                    &&& frame.spec_pixels() == pixels@
                    &&& frame.spec_receive_decode_us() == receive_decode_us
                },
                Err(RemoteFrameError::Pixels(error)) => mono1_error(width, height, pixels@) == Some(
                    error,
                ),
                Err(RemoteFrameError::StrideMismatch { expected, actual }) => {
                    &&& valid_mono1(width, height, pixels@)
                    &&& expected == stride_of(width)
                    &&& actual == stride
                    &&& stride != stride_of(width)
                },
            },
    {
        let validated_stride = match validate_mono1_pixels(width, height, pixels) {
            Ok(validated_stride) => validated_stride,
            Err(error) => return Err(RemoteFrameError::Pixels(error)),
        };
        if stride != validated_stride {
            return Err(RemoteFrameError::StrideMismatch { expected: validated_stride, actual: stride });
        }
        Ok(RemoteFrame { frame_id, width, height, stride, pixels, receive_decode_us })
    }

    pub fn frame_id(self) -> (frame_id: u64)
        ensures
            frame_id == self.spec_frame_id(),
    {
        self.frame_id
    }

    pub fn width(self) -> (width: u16)
        ensures
            width == self.spec_width(),
    {
        self.width
    }

    pub fn height(self) -> (height: u16)
        ensures
            height == self.spec_height(),
    {
        self.height
    }

    pub fn stride(self) -> (stride: usize)
        ensures
            stride == stride_of(self.spec_width()),
    {
        proof {
            use_type_invariant(&self);
        }
        self.stride
    }

    pub fn pixels(self) -> (pixels: &'a [u8])
        ensures
            pixels@ == self.spec_pixels(),
            valid_mono1(self.spec_width(), self.spec_height(), pixels@),
    {
        proof {
            use_type_invariant(&self);
        }
        self.pixels
    }

    pub fn receive_decode_us(self) -> (elapsed: u128)
        ensures
            elapsed == self.spec_receive_decode_us(),
    {
        self.receive_decode_us
    }
}

#[derive(Clone, Copy, Debug, PartialEq, Eq, Structural)]
pub struct CachedFrameMetadata {
    frame_id: u64,
    width: u16,
    height: u16,
}

impl CachedFrameMetadata {
    pub closed spec fn spec_frame_id(self) -> u64 {
        self.frame_id
    }

    pub closed spec fn spec_dimensions(self) -> (u16, u16) {
        (self.width, self.height)
    }

    pub fn new(frame_id: u64, dimensions: (u16, u16)) -> (metadata: Self)
        ensures
            metadata.spec_frame_id() == frame_id,
            metadata.spec_dimensions() == dimensions,
    {
        CachedFrameMetadata { frame_id, width: dimensions.0, height: dimensions.1 }
    }

    pub fn frame_id(self) -> (frame_id: u64)
        ensures
            frame_id == self.spec_frame_id(),
    {
        self.frame_id
    }

    pub fn dimensions(self) -> (dimensions: (u16, u16))
        ensures
            dimensions == self.spec_dimensions(),
    {
        (self.width, self.height)
    }
}

/// Why the cached frame is drawn again.
#[derive(Clone, Copy, Debug, PartialEq, Eq, Structural)]
pub enum RedrawCause {
    SurfaceDamage,
    GeometryChange,
}

/// Payload from the most recent remote frame that a display backend
/// presented successfully.
pub struct CachedRemoteFrame<T> {
    frame_id: u64,
    width: u16,
    height: u16,
    payload: T,
}

impl<T> CachedRemoteFrame<T> {
    pub closed spec fn spec_frame_id(&self) -> u64 {
        self.frame_id
    }

    pub closed spec fn spec_dimensions(&self) -> (u16, u16) {
        (self.width, self.height)
    }

    pub closed spec fn spec_payload(&self) -> T {
        self.payload
    }

    pub fn frame_id(&self) -> (frame_id: u64)
        ensures
            frame_id == self.spec_frame_id(),
    {
        self.frame_id
    }

    pub fn dimensions(&self) -> (dimensions: (u16, u16))
        ensures
            dimensions == self.spec_dimensions(),
    {
        (self.width, self.height)
    }

    pub fn payload(&self) -> (payload: &T)
        ensures
            *payload == self.spec_payload(),
    {
        &self.payload
    }
}

/// The cached frame: its id, extent and payload.
pub struct CachedView<T> {
    pub frame_id: u64,
    pub dimensions: (u16, u16),
    pub payload: T,
}

/// The view of a cached frame.
pub open spec fn cached_view<T>(frame: CachedRemoteFrame<T>) -> CachedView<T> {
    CachedView {
        frame_id: frame.spec_frame_id(),
        dimensions: frame.spec_dimensions(),
        payload: frame.spec_payload(),
    }
}

/// Cache whose replacement remains an explicit post-presentation decision:
/// a backend calls [`RemoteFrameCache::replace`] only after presenting the
/// frame successfully.
pub struct RemoteFrameCache<T> {
    current: Option<CachedRemoteFrame<T>>,
}

impl<T> View for RemoteFrameCache<T> {
    type V = Option<CachedView<T>>;

    closed spec fn view(&self) -> Option<CachedView<T>> {
        match self.current {
            Some(frame) => Some(cached_view(frame)),
            None => None,
        }
    }
}

impl<T> Default for RemoteFrameCache<T> {
    fn default() -> (cache: Self)
        ensures
            cache@ is None,
    {
        RemoteFrameCache { current: None }
    }
}

impl<T> RemoteFrameCache<T> {
    /// An empty cache.
    pub fn new() -> (cache: Self)
        ensures
            cache@ is None,
    {
        RemoteFrameCache { current: None }
    }

    pub fn current(&self) -> (current: Option<&CachedRemoteFrame<T>>)
        ensures
            match current {
                Some(frame) => self@ == Some(cached_view(*frame)),
                None => self@ is None,
            },
    {
        match &self.current {
            Some(frame) => Some(frame),
            None => None,
        }
    }

    /// Cache the frame just presented.
    pub fn replace(&mut self, frame_id: u64, width: u16, height: u16, payload: T)
        ensures
            final(self)@ == Some(CachedView { frame_id, dimensions: (width, height), payload }),
    {
        self.current = Some(CachedRemoteFrame { frame_id, width, height, payload });
    }

    /// Record the outcome of presenting a frame: only a successful
    /// presentation replaces the cached frame; a failed one leaves the cache
    /// as it was.
    pub fn record_presentation(
        &mut self,
        frame_id: u64,
        width: u16,
        height: u16,
        payload: T,
        presented: bool,
    )
        ensures
            presented ==> final(self)@ == Some(
                CachedView { frame_id, dimensions: (width, height), payload },
            ),
            !presented ==> final(self)@ == old(self)@,
    {
        if presented {
            self.replace(frame_id, width, height, payload);
        }
    }

    /// Remove and return the cached frame when its extent is not `viewport`.
    pub fn invalidate_mismatched(&mut self, viewport: (u16, u16)) -> (removed: Option<
        CachedRemoteFrame<T>,
    >)
        ensures
            match old(self)@ {
                Some(cached) => if cached.dimensions != viewport {
                    &&& removed matches Some(frame) && cached_view(frame) == cached
                    &&& final(self)@ is None
                } else {
                    removed is None && final(self)@ == old(self)@
                },
                None => removed is None && final(self)@ is None,
            },
    {
        let mismatched = match &self.current {
            Some(frame) => frame.width != viewport.0 || frame.height != viewport.1,
            None => false,
        };
        if mismatched {
            self.current.take()
        } else {
            None
        }
    }
}

} // verus!
