//! Integer parts of the simulator: entity identities and the synthetic camera
//! frame (its size guard and background gradient).
use vstd::prelude::*;

verus! {

/// Identity of a simulated entity.
#[derive(Debug, Clone, Copy, PartialEq, Eq, Hash, PartialOrd, Ord, Structural)]
pub struct EntityId(pub u64);

/// Largest frame, in bytes, that the synthetic camera will allocate.
pub const MAX_IMAGE_BYTES: usize = 67108864;

/// Bytes in a `width` x `height` RGB frame, or 0 when that exceeds
/// `MAX_IMAGE_BYTES` (the camera then renders nothing).
pub open spec fn frame_len(width: u32, height: u32) -> nat {
    if width * height * 3 <= MAX_IMAGE_BYTES {
        (width * height * 3) as nat
    } else {
        0
    }
}

/// Byte `i` of the background: pixel `i / 3`, row-major; red grows with the
/// column, green with the row, blue is constant.
pub open spec fn gradient_byte(i: int, width: u32, height: u32) -> u8 {
    let p = i / 3;
    let x = p % (width as int);
    let y = p / (width as int);
    if i % 3 == 0 {
        (x * 255 / (width as int)) as u8
    } else if i % 3 == 1 {
        (y * 255 / (height as int)) as u8
    } else {
        128u8
    }
}

/// The background frame of a `width` x `height` camera: the gradient, or an
/// empty frame when the resolution is over the allocation cap. Widths and
/// heights are at least 1 (the camera clamps them), and the gradient's
/// `x * 255` and `y * 255` must fit in `u32`.
pub fn camera_gradient_frame(width: u32, height: u32) -> (img: Vec<u8>)
    requires
        width >= 1,
        height >= 1,
        frame_len(width, height) > 0 ==> (width - 1) * 255 <= u32::MAX && (height - 1) * 255 <= u32::MAX,
    ensures
        img@.len() == frame_len(width, height),
        forall|i: int| 0 <= i < img@.len() ==> img@[i] == #[trigger] gradient_byte(i, width, height),
{
    let w = width as u64;
    let h = height as u64;
    let px = match w.checked_mul(h) {
        Some(v) => v,
        None => return Vec::new(),
    };
    let size = match px.checked_mul(3) {
        Some(v) => v,
        None => return Vec::new(),
    };
    if size > MAX_IMAGE_BYTES as u64 {
        return Vec::new();
    }
    proof {
        assert(width * height >= 1) by (nonlinear_arith)
            requires
                width >= 1,
                height >= 1,
        ;
        assert(frame_len(width, height) > 0);
    }
    let mut img: Vec<u8> = Vec::new();
    let mut i: u64 = 0;
    while i < size
        invariant
            size == width * height * 3,
            size <= MAX_IMAGE_BYTES,
            w == width,
            h == height,
            width >= 1,
            height >= 1,
            (width - 1) * 255 <= u32::MAX,
            (height - 1) * 255 <= u32::MAX,
            i <= size,
            img@.len() == i,
            forall|j: int| 0 <= j < i ==> img@[j] == #[trigger] gradient_byte(j, width, height),
        decreases size - i,
    {
        let p = i / 3;
        let c = i % 3;
        let b: u8 = if c == 0 {
            let x = p % w;
            assert(x <= w - 1);
            assert(x * 255 <= (w - 1) * 255) by (nonlinear_arith)
                requires
                    x <= w - 1,
            ;
            #[verifier::truncate]
            ((x * 255 / w) as u8)
        } else if c == 1 {
            let y = p / w;
            assert(p < w * h) by (nonlinear_arith)
                requires
                    i < size,
                    size == w * h * 3,
                    p == i / 3,
            ;
            assert(y < h) by (nonlinear_arith)
                requires
                    p < w * h,
                    y == p / w,
                    w >= 1,
            ;
            assert(y * 255 <= (h - 1) * 255) by (nonlinear_arith)
                requires
                    y <= h - 1,
            ;
            #[verifier::truncate]
            ((y * 255 / h) as u8)
        } else {
            128u8
        };
        img.push(b);
        proof {
            assert(img@[i as int] == gradient_byte(i as int, width, height));
        }
        i = i + 1;
    }
    img
}

} // verus!
