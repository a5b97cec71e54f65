//! The parameters of a run and the ranges they must lie in.

use vstd::prelude::*;

verus! {

/// Smallest accepted target size.
pub const MIN_SIZE: u32 = 200;

/// Largest accepted target size.
pub const MAX_SIZE: u32 = 5000;

/// Smallest accepted scale factor.
pub const MIN_SCALE: u32 = 1;

/// Largest accepted scale factor.
pub const MAX_SCALE: u32 = 8;

/// Scale factor used when none is given.
pub const DEFAULT_SCALE: u32 = 1;

/// Upscaling model used when none is given.
pub const DEFAULT_MODEL: &'static str = "digital-art-4x";

/// Which parameter is out of range.
#[derive(Clone, Copy, Debug, PartialEq, Eq, Structural)]
pub enum ArgError {
    /// The target size is not within `MIN_SIZE..=MAX_SIZE`.
    Size,
    /// The upscale toggle is neither 0 nor 1.
    Upscale,
    /// The scale factor is not within `MIN_SCALE..=MAX_SCALE`.
    Scale,
}

/// The first parameter found out of range, looking at the size, then the
/// upscale toggle, then the scale factor; `None` when all are in range.
pub open spec fn first_fault(size: u32, upscale: u32, scale: u32) -> Option<ArgError> {
    if size < MIN_SIZE || size > MAX_SIZE {
        Some(ArgError::Size)
    } else if upscale != 0 && upscale != 1 {
        Some(ArgError::Upscale)
    } else if scale < MIN_SCALE || scale > MAX_SCALE {
        Some(ArgError::Scale)
    } else {
        None
    }
}

/// Side of the square the source image is fitted into before compositing:
/// half the target size, divided once more by the scale factor when the
/// upscaler is going to multiply it back.
pub open spec fn working_size_of(size: u32, upscale: u32, scale: u32) -> int {
    if upscale == 0 {
        size as int / 2
    } else {
        size as int / (2 * scale)
    }
}

/// Checks the three numeric parameters against their ranges.
pub fn check_args(size: u32, upscale: u32, scale: u32) -> (res: Result<(), ArgError>)
    ensures
        res == match first_fault(size, upscale, scale) {
            Some(e) => Err::<(), ArgError>(e),
            None => Ok::<(), ArgError>(()),
        },
{
    if size < MIN_SIZE || size > MAX_SIZE {
        Err(ArgError::Size)
    } else if upscale != 0 && upscale != 1 {
        Err(ArgError::Upscale)
    } else if scale < MIN_SCALE || scale > MAX_SCALE {
        Err(ArgError::Scale)
    } else {
        Ok(())
    }
}

/// Parameters of a run, all within their ranges.
#[derive(Debug)]
pub struct Args {
    size: u32,
    upscale: u32,
    model: String,
    scale: u32,
}

impl Args {
    #[verifier::type_invariant]
    spec fn in_range(self) -> bool {
        first_fault(self.size, self.upscale, self.scale) is None
    }

    /// The target size.
    pub closed spec fn size_value(self) -> u32 {
        self.size
    }

    /// The upscale toggle.
    pub closed spec fn upscale_value(self) -> u32 {
        self.upscale
    }

    /// The scale factor.
    pub closed spec fn scale_value(self) -> u32 {
        self.scale
    }

    /// The model name.
    pub closed spec fn model_value(self) -> Seq<char> {
        self.model@
    }

    /// Parameters that hold these values, or the first of them that is out
    /// of range. Any model name is accepted.
    pub fn new(size: u32, upscale: u32, model: String, scale: u32) -> (res: Result<Args, ArgError>)
        ensures
            match res {
                Ok(args) => {
                    &&& first_fault(size, upscale, scale) is None
                    &&& args.size_value() == size
                    &&& args.upscale_value() == upscale
                    &&& args.scale_value() == scale
                    &&& args.model_value() == model@
                },
                Err(e) => first_fault(size, upscale, scale) == Some(e),
            },
    {
        match check_args(size, upscale, scale) {
            Ok(()) => Ok(Args { size, upscale, model, scale }),
            Err(e) => Err(e),
        }
    }

    /// The target size, within `MIN_SIZE..=MAX_SIZE`.
    pub fn size(&self) -> (v: u32)
        ensures
            v == self.size_value(),
            MIN_SIZE <= v <= MAX_SIZE,
    {
        proof {
            use_type_invariant(self);
        }
        self.size
    }

    /// Whether the source is to be upscaled.
    pub fn upscaling(&self) -> (v: bool)
        ensures
            v == (self.upscale_value() == 1),
            self.upscale_value() == 0 || self.upscale_value() == 1,
    {
        proof {
            use_type_invariant(self);
        }
        self.upscale == 1
    }

    /// The scale factor, within `MIN_SCALE..=MAX_SCALE`.
    pub fn scale(&self) -> (v: u32)
        ensures
            v == self.scale_value(),
            MIN_SCALE <= v <= MAX_SCALE,
    {
        proof {
            use_type_invariant(self);
        }
        self.scale
    }

    /// The model name.
    pub fn model(&self) -> (m: &String)
        ensures
            m@ == self.model_value(),
    {
        &self.model
    }

    /// Side of the square the source image is fitted into before
    /// compositing.
    pub fn working_size(&self) -> (v: u32)
        ensures
            v == working_size_of(self.size_value(), self.upscale_value(), self.scale_value()),
    {
        proof {
            use_type_invariant(self);
        }
        if self.upscale == 0 {
            self.size / 2
        } else {
            self.size / (2 * self.scale)
        }
    }
}

} // verus!
