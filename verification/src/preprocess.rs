//! Per-item preprocessing: decode the fetched bytes, resize so the shorter
//! edge equals the target side, centre-crop to a square, round-trip through
//! a lossy JPEG encode/decode (the reference recipe's normalization step),
//! and lay the final pixels out channel-first. The whole chain is a pure
//! function of the input bytes, stated by `preprocess_model`.
use vstd::prelude::*;

use crate::image_ops::{
    crop_image, cropped_rgb, decode_image, decoded_image, dims_of, encode_jpeg, image_raw_rgb,
    jpeg_encoded, resize_image, resized_rgb,
};
use vstd::arithmetic::div_mod::{
    lemma_div_is_ordered, lemma_div_multiples_vanish, lemma_div_nonincreasing,
};

verus! {

/// Width after scaling so that the shorter edge becomes `side`.
pub open spec fn scaled_width(w: nat, h: nat, side: nat) -> nat {
    if w <= h {
        side
    } else {
        (w * side) / h
    }
}

/// Height after scaling so that the shorter edge becomes `side`.
pub open spec fn scaled_height(w: nat, h: nat, side: nat) -> nat {
    if w <= h {
        (h * side) / w
    } else {
        side
    }
}

/// Whether an image of dimensions (w, h) can be scaled for the given target
/// side on this machine: both scaled dimensions must be representable and
/// the resized buffer must fit in memory.
pub open spec fn geometry_ok(w: nat, h: nat, side: nat) -> bool {
    &&& 1 <= w
    &&& 1 <= h
    &&& scaled_width(w, h, side) <= u32::MAX
    &&& scaled_height(w, h, side) <= u32::MAX
    &&& 3 * scaled_width(w, h, side) * scaled_height(w, h, side) <= usize::MAX
}

/// Where element `k` of the channel-first tensor comes from in flat
/// row-major RGB contents: channel `c = k / side^2`, then column-major
/// position `x = (k % side^2) / side`, `y = (k % side^2) % side`, reading
/// pixel (x, y)'s channel `c`.
pub open spec fn rgb_index_of(k: int, side: int) -> int {
    let c = k / (side * side);
    let rem = k % (side * side);
    let x = rem / side;
    let y = rem % side;
    (y * side + x) * 3 + c
}

/// The channel-first square tensor drawn from flat row-major RGB contents.
pub open spec fn tensor_of(rgb: Seq<u8>, side: nat) -> Seq<u8> {
    Seq::new(crate::tensor_len(side), |k: int| rgb[rgb_index_of(k, side as int)])
}

/// What preprocessing a byte string yields: `None` when some stage rejects
/// the input, otherwise the channel-first tensor of the decoded, resized,
/// centre-cropped and JPEG-round-tripped image.
pub open spec fn preprocess_model(b: Seq<u8>, side: nat) -> Option<Seq<u8>> {
    if decoded_image(b) is None {
        None
    } else {
        let (w, h, rgb) = decoded_image(b).unwrap();
        if !geometry_ok(w, h, side) {
            None
        } else {
            let nw = scaled_width(w, h, side);
            let nh = scaled_height(w, h, side);
            let resized = resized_rgb(rgb, w, h, nw, nh);
            let cropped = cropped_rgb(
                resized,
                nw as int,
                ((nw - side) / 2) as int,
                ((nh - side) / 2) as int,
                side as int,
                side as int,
            );
            let encoded = jpeg_encoded(cropped, side, side);
            if decoded_image(encoded) is None {
                None
            } else {
                let (w2, h2, rgb2) = decoded_image(encoded).unwrap();
                if w2 == side && h2 == side {
                    Some(tensor_of(rgb2, side))
                } else {
                    None
                }
            }
        }
    }
}

/// Scaling never shrinks either dimension below the target side.
proof fn lemma_scaled_at_least_side(w: nat, h: nat, side: nat)
    requires
        1 <= w,
        1 <= h,
        1 <= side,
    ensures
        side <= scaled_width(w, h, side),
        side <= scaled_height(w, h, side),
{
    if w <= h {
        assert((w * side) as int <= (h * side) as int) by (nonlinear_arith)
            requires
                w <= h,
                0 <= side,
        ;
        lemma_div_is_ordered((w * side) as int, (h * side) as int, w as int);
        lemma_div_multiples_vanish(side as int, w as int);
        assert(w * side == (w as int) * (side as int));
    } else {
        assert((h * side) as int <= (w * side) as int) by (nonlinear_arith)
            requires
                h <= w,
                0 <= side,
        ;
        lemma_div_is_ordered((h * side) as int, (w * side) as int, h as int);
        lemma_div_multiples_vanish(side as int, h as int);
        assert(h * side == (h as int) * (side as int));
    }
}

/// A tensor the model produces has exactly `3 * side * side` elements.
pub proof fn lemma_model_tensor_len(b: Seq<u8>, side: nat)
    ensures
        preprocess_model(b, side) matches Some(t) ==> t.len() == crate::tensor_len(side),
{
}

/// Whether a target side satisfies the limits that `preprocess` and the
/// batch assembly require of this machine: the side must be a usable JPEG
/// dimension and the tensor must be addressable.
pub fn side_within_limits(side: u32) -> (r: bool)
    ensures
        r <==> (1 <= side && side <= 65535 && crate::tensor_len(side as nat) <= usize::MAX),
{
    if side < 1 || side > 65535 {
        return false;
    }
    proof {
        assert(((3 * (side as u128) as int) * (side as u128) as int) <= 0x3_0000_0000_0000_0000)
            by (nonlinear_arith)
            requires
                0 <= (side as u128) as int,
                (side as u128) as int <= 65535,
        ;
    }
    let prod: u128 = 3u128 * (side as u128) * (side as u128);
    prod <= usize::MAX as u128
}

/// Decode, resize, centre-crop, JPEG round-trip, and lay out channel-first.
/// Returns the tensor exactly when `preprocess_model` allows the input, and
/// the reason of the first failing stage otherwise.
pub fn preprocess(bytes: &Vec<u8>, side: u32) -> (r: Result<Vec<u8>, String>)
    requires
        1 <= side <= 65535,
        crate::tensor_len(side as nat) <= usize::MAX,
    ensures
        (r matches Ok(t) ==> preprocess_model(bytes@, side as nat) == Some(t@)),
        (r matches Ok(t) ==> t@.len() == crate::tensor_len(side as nat)),
        r is Err ==> preprocess_model(bytes@, side as nat) is None,
{
    let img = match decode_image(bytes.as_slice()) {
        Ok(i) => i,
        Err(e) => {
            return Err(e);
        },
    };
    let (w, h) = dims_of(&img);
    if w < 1 || h < 1 {
        return Err("image has an empty dimension".to_string());
    }
    proof {
        lemma_scaled_at_least_side(w as nat, h as nat, side as nat);
    }
    let nw64: u64;
    let nh64: u64;
    if w <= h {
        nw64 = side as u64;
        proof {
            assert((h as u64) as int * (side as u64) as int <= 0xffff_ffff * 65535)
                by (nonlinear_arith)
                requires
                    (h as u64) as int <= 0xffff_ffff,
                    0 <= (h as u64) as int,
                    0 <= (side as u64) as int <= 65535,
            ;
        }
        nh64 = (h as u64) * (side as u64) / (w as u64);
    } else {
        nh64 = side as u64;
        proof {
            assert((w as u64) as int * (side as u64) as int <= 0xffff_ffff * 65535)
                by (nonlinear_arith)
                requires
                    (w as u64) as int <= 0xffff_ffff,
                    0 <= (w as u64) as int,
                    0 <= (side as u64) as int <= 65535,
            ;
        }
        nw64 = (w as u64) * (side as u64) / (h as u64);
    }
    assert(nw64 as int == scaled_width(w as nat, h as nat, side as nat));
    assert(nh64 as int == scaled_height(w as nat, h as nat, side as nat));
    if nw64 > u32::MAX as u64 || nh64 > u32::MAX as u64 {
        return Err("scaled image dimensions overflow".to_string());
    }
    proof {
        assert((3 * (nw64 as u128) as int * (nh64 as u128) as int) <= 0x3_0000_0000_0000_0000)
            by (nonlinear_arith)
            requires
                0 <= (nw64 as u128) as int <= 0xffff_ffff,
                0 <= (nh64 as u128) as int <= 0xffff_ffff,
        ;
    }
    let prod: u128 = 3u128 * (nw64 as u128) * (nh64 as u128);
    if prod > usize::MAX as u128 {
        return Err("scaled image does not fit in memory".to_string());
    }
    assert(geometry_ok(w as nat, h as nat, side as nat));
    let nw = nw64 as u32;
    let nh = nh64 as u32;
    let resized = resize_image(&img, nw, nh);
    let x0 = (nw - side) / 2;
    let y0 = (nh - side) / 2;
    proof {
        lemma_div_nonincreasing((nw - side) as int, 2);
        lemma_div_nonincreasing((nh - side) as int, 2);
    }
    let cropped = crop_image(&resized, x0, y0, side, side);
    let encoded = match encode_jpeg(&cropped) {
        Ok(b) => b,
        Err(e) => {
            return Err(e);
        },
    };
    let img2 = match decode_image(encoded.as_slice()) {
        Ok(i) => i,
        Err(e) => {
            return Err(e);
        },
    };
    let (w2, h2) = dims_of(&img2);
    if w2 != side || h2 != side {
        return Err("round-tripped image has unexpected dimensions".to_string());
    }
    let raw = image_raw_rgb(&img2);
    let s: usize = side as usize;
    proof {
        assert((s as int) * (s as int) <= 0xffff_ffff) by (nonlinear_arith)
            requires
                1 <= s as int,
                s as int <= 65535,
        ;
    }
    let ss: usize = s * s;
    proof {
        assert(3 * (ss as int) == 3 * (side as int) * (side as int)) by (nonlinear_arith)
            requires
                ss as int == (side as int) * (side as int),
        ;
        assert(3 * (side as int) * (side as int) == crate::tensor_len(side as nat));
    }
    let total: usize = 3 * ss;
    let mut out: Vec<u8> = Vec::new();
    let mut k: usize = 0;
    while k < total
        invariant
            k <= total,
            1 <= s <= 65535,
            s == side as int,
            ss == s * s,
            total == 3 * ss,
            total == crate::tensor_len(side as nat),
            raw@.len() == total,
            out@.len() == k,
            forall|i: int| 0 <= i < k ==> out@[i] == raw@[rgb_index_of(i, side as int)],
        decreases total - k,
    {
        let c = k / ss;
        let rem = k % ss;
        let x = rem / s;
        let y = rem % s;
        proof {
            assert(k as int / (ss as int) < 3 && rem as int / (s as int) < s as int
                && (rem as int % (s as int)) * (s as int) + (rem as int / (s as int)) < ss as int)
                by (nonlinear_arith)
                requires
                    0 <= k as int,
                    k as int + 1 <= 3 * (ss as int),
                    1 <= s as int,
                    ss as int == (s as int) * (s as int),
                    rem as int == k as int % (ss as int),
            ;
        }
        let src = (y * s + x) * 3 + c;
        assert(src as int == rgb_index_of(k as int, side as int));
        let b = raw[src];
        out.push(b);
        k = k + 1;
    }
    proof {
        assert(out@ =~= tensor_of(raw@, side as nat));
    }
    Ok(out)
}

} // verus!
