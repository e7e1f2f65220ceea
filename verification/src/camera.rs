//! The camera overlay window: its size and the page it shows.

use vstd::prelude::*;

use crate::text::{eq_str, owned};

verus! {

/// The side of the overlay, in logical pixels, for the size names
/// "small" and "large"; every other name gives the medium size.
pub open spec fn overlay_side(size: Seq<char>) -> u32 {
    if size == "small"@ { 150 } else if size == "large"@ { 300 } else { 200 }
}

/// The side of the overlay window for the size name `size`.
pub fn overlay_dimension(size: &String) -> (r: u32)
    ensures
        r == overlay_side(size@),
        size@ == "small"@ ==> r == 150,
        size@ == "large"@ ==> r == 300,
        size@ != "small"@ && size@ != "large"@ ==> r == 200,
{
    proof {
        law_overlay_sides(size@);
    }
    if eq_str(size, "small") {
        150
    } else if eq_str(size, "large") {
        300
    } else {
        200
    }
}

/// The overlay is 150 logical pixels a side when "small", 300 when
/// "large" and 200 for any other size name, "medium" among them; so small
/// is smaller than medium, and medium smaller than large.
pub proof fn law_overlay_sides(size: Seq<char>)
    ensures
        size == "small"@ ==> overlay_side(size) == 150,
        size == "large"@ ==> overlay_side(size) == 300,
        size != "small"@ && size != "large"@ ==> overlay_side(size) == 200,
        overlay_side("small"@) < overlay_side("medium"@),
        overlay_side("medium"@) < overlay_side("large"@),
{
    reveal_strlit("small");
    reveal_strlit("large");
    reveal_strlit("medium");
    assert("small"@ != "large"@) by {
        assert("small"@[0] != "large"@[0]);
    }
    assert("medium"@ != "small"@) by {
        assert("medium"@[0] != "small"@[0]);
    }
    assert("medium"@ != "large"@) by {
        assert("medium"@[0] != "large"@[0]);
    }
}

/// The size name asked for, or "medium".
pub fn overlay_size_or_default(size: Option<String>) -> (r: String)
    ensures
        r@ == match size {
            Some(s) => s@,
            None => "medium"@,
        },
{
    match size {
        Some(s) => s,
        None => owned("medium"),
    }
}

/// The shape name asked for, or "circle".
pub fn overlay_shape_or_default(shape: Option<String>) -> (r: String)
    ensures
        r@ == match shape {
            Some(s) => s@,
            None => "circle"@,
        },
{
    match shape {
        Some(s) => s,
        None => owned("circle"),
    }
}

/// The page of the overlay: its size, its shape and, when one is chosen,
/// the camera, as query parameters.
pub open spec fn overlay_page(size: Seq<char>, shape: Seq<char>, device_id: Option<Seq<char>>) -> Seq<char> {
    let base = "/camera-overlay?"@ + "size="@ + size + "&"@ + "shape="@ + shape;
    match device_id {
        Some(id) => base + "&"@ + "deviceId="@ + id,
        None => base,
    }
}

/// The page address of the overlay (see `overlay_page`).
pub fn overlay_url(size: &String, shape: &String, device_id: &Option<String>) -> (r: String)
    ensures
        r@ == overlay_page(size@, shape@, match device_id {
            Some(d) => Some(d@),
            None => None,
        }),
{
    let mut url = owned("/camera-overlay?");
    url.append("size=");
    url.append(size.as_str());
    url.append("&");
    url.append("shape=");
    url.append(shape.as_str());
    match device_id {
        Some(id) => {
            url.append("&");
            url.append("deviceId=");
            url.append(id.as_str());
        },
        None => {},
    }
    url
}

} // verus!
