//! Choosing which display output to capture. The driver does not report
//! which output the virtual display became, so the target is the output of
//! the display's size, preferring one away from the primary monitor's
//! origin `(0, 0)` so that a physical monitor of the same resolution is not
//! mistaken for it. Enumerating outputs and duplicating one are OS calls
//! outside this library.

use vstd::prelude::*;

verus! {

/// An output's desktop rectangle, as the OS describes it.
#[derive(Debug, Clone, Copy, PartialEq, Eq, Structural)]
pub struct OutputRect {
    pub left: i32,
    pub top: i32,
    pub right: i32,
    pub bottom: i32,
}

/// Whether `r`'s size is `width` by `height` pixels.
pub open spec fn has_size(r: OutputRect, width: u32, height: u32) -> bool {
    r.right - r.left == width && r.bottom - r.top == height
}

/// Whether `r` sits at the primary monitor's conventional origin.
pub open spec fn at_primary_origin(r: OutputRect) -> bool {
    r.left == 0 && r.top == 0
}

/// The output to capture among `outputs`: the first of the display's size
/// away from the primary origin, else the first of its size at it, else
/// none.
pub open spec fn spec_select_target_output(outputs: Seq<OutputRect>, width: u32, height: u32) -> Option<int> {
    if exists|i: int| 0 <= i < outputs.len() && has_size(outputs[i], width, height) && !at_primary_origin(outputs[i]) {
        Some(choose|i: int| 0 <= i < outputs.len() && has_size(outputs[i], width, height) && !at_primary_origin(outputs[i])
            && forall|j: int| 0 <= j < i ==> !(has_size(outputs[j], width, height) && !at_primary_origin(outputs[j])))
    } else if exists|i: int| 0 <= i < outputs.len() && has_size(outputs[i], width, height) {
        Some(choose|i: int| 0 <= i < outputs.len() && has_size(outputs[i], width, height)
            && forall|j: int| 0 <= j < i ==> !has_size(outputs[j], width, height))
    } else {
        None
    }
}

/// The index of the output to capture for a display `width` by `height`
/// pixels, if any output has that size.
pub fn select_target_output(outputs: &[OutputRect], width: u32, height: u32) -> (r: Option<usize>)
    ensures
        match r {
            Some(i) => spec_select_target_output(outputs@, width, height) == Some(i as int),
            None => spec_select_target_output(outputs@, width, height) is None,
        },
{
    let mut candidate: Option<usize> = None;
    let mut i: usize = 0;
    while i < outputs.len()
        invariant
            i <= outputs@.len(),
            forall|j: int| 0 <= j < i ==> !(has_size(outputs@[j], width, height) && !at_primary_origin(outputs@[j])),
            match candidate {
                Some(c) => c < i && has_size(outputs@[c as int], width, height)
                    && forall|j: int| 0 <= j < c ==> !has_size(outputs@[j], width, height),
                None => forall|j: int| 0 <= j < i ==> !has_size(outputs@[j], width, height),
            },
        decreases outputs@.len() - i,
    {
        let o = outputs[i];
        let w: i64 = o.right as i64 - o.left as i64;
        let h: i64 = o.bottom as i64 - o.top as i64;
        if w == width as i64 && h == height as i64 {
            if !(o.left == 0 && o.top == 0) {
                proof {
                    let s = spec_select_target_output(outputs@, width, height);
                    let k = choose|k: int| 0 <= k < outputs@.len() && has_size(outputs@[k], width, height)
                        && !at_primary_origin(outputs@[k])
                        && forall|j: int| 0 <= j < k ==> !(has_size(outputs@[j], width, height) && !at_primary_origin(outputs@[j]));
                    assert(has_size(outputs@[i as int], width, height) && !at_primary_origin(outputs@[i as int]));
                    if k < i {
                    } else if k > i {
                    }
                    assert(s == Some(i as int));
                }
                return Some(i);
            }
            if candidate.is_none() {
                candidate = Some(i);
            }
        }
        i = i + 1;
    }
    proof {
        if let Some(c) = candidate {
            let k = choose|k: int| 0 <= k < outputs@.len() && has_size(outputs@[k], width, height)
                && forall|j: int| 0 <= j < k ==> !has_size(outputs@[j], width, height);
            assert(has_size(outputs@[c as int], width, height));
            if k < c {
            } else if k > c {
            }
        }
    }
    candidate
}

} // verus!
