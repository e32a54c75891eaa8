use vstd::prelude::*;

verus! {

/// `VK_FORMAT_B8G8R8A8_SRGB`.
pub const FORMAT_B8G8R8A8_SRGB: i32 = 50;
/// `VK_COLOR_SPACE_SRGB_NONLINEAR_KHR`.
pub const COLOR_SPACE_SRGB_NONLINEAR: i32 = 0;
/// `VK_PRESENT_MODE_MAILBOX_KHR`.
pub const PRESENT_MODE_MAILBOX: i32 = 1;
/// `VK_PRESENT_MODE_FIFO_KHR`.
pub const PRESENT_MODE_FIFO: i32 = 2;

/// A width and a height, in pixels.
#[derive(Clone, Copy)]
pub struct Extent2D {
    pub width: u32,
    pub height: u32,
}

/// A pixel format with the color space it is shown in.
#[derive(Clone, Copy)]
pub struct SurfaceFormat {
    pub format: i32,
    pub color_space: i32,
}

/// What a surface allows for the images shown on it.
#[derive(Clone, Copy)]
pub struct SurfaceCapabilities {
    pub min_image_count: u32,
    /// No limit when 0.
    pub max_image_count: u32,
    /// `u32::MAX` wide when the swapchain decides the size.
    pub current_extent: Extent2D,
    pub min_image_extent: Extent2D,
    pub max_image_extent: Extent2D,
}

/// The format looked for first: 8-bit BGRA in sRGB.
pub open spec fn is_preferred_format(f: SurfaceFormat) -> bool {
    f.format == FORMAT_B8G8R8A8_SRGB && f.color_space == COLOR_SPACE_SRGB_NONLINEAR
}

/// The format chosen among `formats`: the preferred one where it is offered,
/// else the first.
pub open spec fn chosen_format(formats: Seq<SurfaceFormat>) -> SurfaceFormat {
    if exists|i: int| 0 <= i < formats.len() && is_preferred_format(#[trigger] formats[i]) {
        SurfaceFormat { format: FORMAT_B8G8R8A8_SRGB, color_space: COLOR_SPACE_SRGB_NONLINEAR }
    } else {
        formats[0]
    }
}

/// Chooses the format of the swapchain images; at least one must be offered.
pub fn choose_surface_format(formats: &Vec<SurfaceFormat>) -> (r: SurfaceFormat)
    requires
        formats@.len() > 0,
    ensures
        r == chosen_format(formats@),
{
    let mut i: usize = 0;
    while i < formats.len()
        invariant
            i <= formats@.len(),
            forall|j: int| 0 <= j < i ==> !is_preferred_format(#[trigger] formats@[j]),
        decreases formats@.len() - i,
    {
        let f = formats[i];
        if f.color_space == COLOR_SPACE_SRGB_NONLINEAR && f.format == FORMAT_B8G8R8A8_SRGB {
            proof { assert(is_preferred_format(formats@[i as int])); }
            return f;
        }
        i = i + 1;
    }
    formats[0]
}

/// The present mode chosen among `modes`: mailbox where offered, else FIFO.
pub open spec fn chosen_present_mode(modes: Seq<i32>) -> i32 {
    if modes.contains(PRESENT_MODE_MAILBOX) { PRESENT_MODE_MAILBOX } else { PRESENT_MODE_FIFO }
}

/// Chooses how images are presented.
pub fn choose_present_mode(modes: &Vec<i32>) -> (r: i32)
    ensures
        r == chosen_present_mode(modes@),
        forall|i: int| 0 <= i < modes@.len() && #[trigger] modes@[i] == PRESENT_MODE_MAILBOX ==> r == PRESENT_MODE_MAILBOX,
        (forall|i: int| 0 <= i < modes@.len() ==> #[trigger] modes@[i] != PRESENT_MODE_MAILBOX) ==> r == PRESENT_MODE_FIFO,
{
    let mut i: usize = 0;
    while i < modes.len()
        invariant
            i <= modes@.len(),
            forall|j: int| 0 <= j < i ==> modes@[j] != PRESENT_MODE_MAILBOX,
        decreases modes@.len() - i,
    {
        if modes[i] == PRESENT_MODE_MAILBOX {
            proof { assert(modes@.contains(PRESENT_MODE_MAILBOX)); }
            return PRESENT_MODE_MAILBOX;
        }
        i = i + 1;
    }
    PRESENT_MODE_FIFO
}

/// `v` held between `lo` and `hi`.
pub open spec fn clamped(v: u32, lo: u32, hi: u32) -> u32 {
    if v < lo { lo } else if v > hi { hi } else { v }
}

/// `v` held between `lo` and `hi`.
fn clamp(v: u32, lo: u32, hi: u32) -> (r: u32)
    requires
        lo <= hi,
    ensures
        r == clamped(v, lo, hi),
{
    if v < lo { lo } else if v > hi { hi } else { v }
}

/// The size chosen for the swapchain images.
pub open spec fn chosen_extent(caps: SurfaceCapabilities, width: u32, height: u32) -> Extent2D {
    if caps.current_extent.width != u32::MAX {
        caps.current_extent
    } else {
        Extent2D {
            width: clamped(width, caps.min_image_extent.width, caps.max_image_extent.width),
            height: clamped(height, caps.min_image_extent.height, caps.max_image_extent.height),
        }
    }
}

/// Chooses the size of the swapchain images: the surface's own size when it has
/// one, else the window's size held within the surface's limits.
pub fn choose_extent(caps: &SurfaceCapabilities, physical_size: (u32, u32)) -> (r: Extent2D)
    requires
        caps.current_extent.width == u32::MAX ==> caps.min_image_extent.width <= caps.max_image_extent.width
            && caps.min_image_extent.height <= caps.max_image_extent.height,
    ensures
        r == chosen_extent(*caps, physical_size.0, physical_size.1),
        caps.current_extent.width != u32::MAX ==> r == caps.current_extent,
        caps.current_extent.width == u32::MAX ==> caps.min_image_extent.width <= r.width <= caps.max_image_extent.width
            && caps.min_image_extent.height <= r.height <= caps.max_image_extent.height
            && (caps.min_image_extent.width <= physical_size.0 <= caps.max_image_extent.width ==> r.width == physical_size.0)
            && (caps.min_image_extent.height <= physical_size.1 <= caps.max_image_extent.height ==> r.height == physical_size.1)
            && (physical_size.0 < caps.min_image_extent.width ==> r.width == caps.min_image_extent.width)
            && (physical_size.0 > caps.max_image_extent.width ==> r.width == caps.max_image_extent.width)
            && (physical_size.1 < caps.min_image_extent.height ==> r.height == caps.min_image_extent.height)
            && (physical_size.1 > caps.max_image_extent.height ==> r.height == caps.max_image_extent.height),
{
    if caps.current_extent.width != u32::MAX {
        return caps.current_extent;
    }
    let (width, height) = physical_size;
    Extent2D {
        width: clamp(width, caps.min_image_extent.width, caps.max_image_extent.width),
        height: clamp(height, caps.min_image_extent.height, caps.max_image_extent.height),
    }
}

/// The number of swapchain images asked for: one more than the least, three for
/// mailbox, then held within the surface's limits when it has a maximum.
pub open spec fn chosen_image_count(caps: SurfaceCapabilities, present_mode: i32) -> u32 {
    let desired: int = if present_mode == PRESENT_MODE_MAILBOX { 3 } else { caps.min_image_count + 1 };
    if caps.max_image_count > 0 {
        let low: int = if desired < caps.max_image_count { desired } else { caps.max_image_count as int };
        (if low > caps.min_image_count { low } else { caps.min_image_count as int }) as u32
    } else {
        desired as u32
    }
}

/// Chooses how many images the swapchain asks for.
pub fn choose_image_count(caps: &SurfaceCapabilities, present_mode: i32) -> (r: u32)
    requires
        caps.min_image_count < u32::MAX,
    ensures
        r == chosen_image_count(*caps, present_mode),
        present_mode == PRESENT_MODE_MAILBOX && (caps.max_image_count == 0 || caps.min_image_count <= 3 <= caps.max_image_count) ==> r == 3,
        present_mode == PRESENT_MODE_MAILBOX && caps.max_image_count > 0 && 3 < caps.min_image_count ==> r == caps.min_image_count,
        present_mode != PRESENT_MODE_MAILBOX && (caps.max_image_count == 0 || caps.min_image_count + 1 <= caps.max_image_count)
            ==> r == caps.min_image_count + 1,
        caps.max_image_count > 0 && caps.min_image_count <= caps.max_image_count ==> caps.min_image_count <= r <= caps.max_image_count,
        caps.max_image_count > 0 && caps.max_image_count < caps.min_image_count ==> r == caps.min_image_count,
{
    let mut desired = caps.min_image_count + 1;
    if present_mode == PRESENT_MODE_MAILBOX {
        desired = 3;
    }
    if caps.max_image_count > 0 {
        if caps.max_image_count < desired {
            desired = caps.max_image_count;
        }
        if desired < caps.min_image_count {
            desired = caps.min_image_count;
        }
    }
    desired
}

/// The plain image count: one more than the least, at most the
/// surface's maximum when it has one.
pub open spec fn basic_image_count(caps: SurfaceCapabilities) -> u32 {
    let limit: int = if caps.max_image_count > 0 { caps.max_image_count as int } else { u32::MAX as int };
    (if caps.min_image_count + 1 < limit { caps.min_image_count + 1 } else { limit }) as u32
}

/// Chooses the plain image count.
pub fn choose_basic_image_count(caps: &SurfaceCapabilities) -> (r: u32)
    requires
        caps.min_image_count < u32::MAX,
    ensures
        r == basic_image_count(*caps),
{
    let limit = if caps.max_image_count > 0 { caps.max_image_count } else { u32::MAX };
    let wanted = caps.min_image_count + 1;
    if wanted < limit { wanted } else { limit }
}

/// Whether `names` holds `name`.
pub fn holds_name(names: &Vec<String>, name: &String) -> (r: bool)
    ensures
        r == names@.map_values(|n: String| n@).contains(name@),
{
    let ghost views = names@.map_values(|n: String| n@);
    let mut i: usize = 0;
    while i < names.len()
        invariant
            i <= names@.len(),
            views == names@.map_values(|n: String| n@),
            forall|j: int| 0 <= j < i ==> views[j] != name@,
        decreases names@.len() - i,
    {
        if names[i].eq(name) {
            proof { assert(views[i as int] == name@); }
            return true;
        }
        i = i + 1;
    }
    false
}

/// Whether every name of `required` is in `available`.
pub open spec fn all_present(required: Seq<Seq<char>>, available: Seq<Seq<char>>) -> bool {
    forall|i: int| 0 <= i < required.len() ==> available.contains(#[trigger] required[i])
}

/// Whether a physical device may be used with a surface: when it offers every
/// required extension, it is refused if the swapchain extension is required
/// and the surface has no present mode, or if the surface has no format.
pub open spec fn device_compatible(
    device_extensions: Seq<Seq<char>>,
    required: Seq<Seq<char>>,
    swapchain_extension: Seq<char>,
    no_present_modes: bool,
    no_formats: bool,
) -> bool {
    !(all_present(required, device_extensions)
        && ((required.contains(swapchain_extension) && no_present_modes) || no_formats))
}

/// Decides whether a physical device may be used with a surface.
pub fn is_physical_device_compatible(
    device_extensions: &Vec<String>,
    required: &Vec<String>,
    swapchain_extension: &String,
    no_present_modes: bool,
    no_formats: bool,
) -> (r: bool)
    ensures
        r == device_compatible(
            device_extensions@.map_values(|n: String| n@),
            required@.map_values(|n: String| n@),
            swapchain_extension@,
            no_present_modes,
            no_formats,
        ),
{
    let ghost req = required@.map_values(|n: String| n@);
    let ghost avail = device_extensions@.map_values(|n: String| n@);
    let mut all = true;
    let mut i: usize = 0;
    while i < required.len()
        invariant
            i <= required@.len(),
            req == required@.map_values(|n: String| n@),
            avail == device_extensions@.map_values(|n: String| n@),
            all == (forall|j: int| 0 <= j < i ==> avail.contains(#[trigger] req[j])),
        decreases required@.len() - i,
    {
        let present = holds_name(device_extensions, &required[i]);
        proof {
            assert(req[i as int] == required@[i as int]@);
            if all && present {
                assert forall|j: int| 0 <= j < i + 1 implies avail.contains(#[trigger] req[j]) by {
                    if j == i { assert(avail.contains(req[i as int])); }
                }
            }
        }
        all = all && present;
        i = i + 1;
    }
    if all {
        let needs_swapchain = holds_name(required, swapchain_extension);
        if (needs_swapchain && no_present_modes) || no_formats {
            return false;
        }
    }
    true
}

} // verus!

verus! {

/// The chosen size lies within the surface's limits whenever the surface leaves
/// the size to the swapchain.
pub proof fn law_extent_within_limits(caps: SurfaceCapabilities, width: u32, height: u32)
    requires
        caps.current_extent.width == u32::MAX,
        caps.min_image_extent.width <= caps.max_image_extent.width,
        caps.min_image_extent.height <= caps.max_image_extent.height,
    ensures
        caps.min_image_extent.width <= chosen_extent(caps, width, height).width <= caps.max_image_extent.width,
        caps.min_image_extent.height <= chosen_extent(caps, width, height).height <= caps.max_image_extent.height,
{
}

/// The chosen image count lies within the surface's limits when it has a maximum.
pub proof fn law_image_count_within_limits(caps: SurfaceCapabilities, present_mode: i32)
    requires
        caps.max_image_count > 0,
        caps.min_image_count <= caps.max_image_count,
    ensures
        caps.min_image_count <= chosen_image_count(caps, present_mode) <= caps.max_image_count,
{
}

/// Mailbox is chosen wherever it is offered, at any place in the list, and
/// FIFO wherever it is not.
pub proof fn law_mailbox_when_offered(modes: Seq<i32>, i: int)
    ensures
        0 <= i < modes.len() && modes[i] == PRESENT_MODE_MAILBOX ==> chosen_present_mode(modes) == PRESENT_MODE_MAILBOX,
        (forall|j: int| 0 <= j < modes.len() ==> #[trigger] modes[j] != PRESENT_MODE_MAILBOX)
            ==> chosen_present_mode(modes) == PRESENT_MODE_FIFO,
{
    if 0 <= i < modes.len() && modes[i] == PRESENT_MODE_MAILBOX {
        assert(modes.contains(PRESENT_MODE_MAILBOX));
    }
}

/// When the surface leaves the size to the swapchain, a window side that lies
/// within the surface's limits is kept as it is, and one outside them is
/// brought to the nearest limit; otherwise the surface's own size is taken.
pub proof fn law_extent_follows_window(caps: SurfaceCapabilities, width: u32, height: u32)
    requires
        caps.min_image_extent.width <= caps.max_image_extent.width,
        caps.min_image_extent.height <= caps.max_image_extent.height,
    ensures
        caps.current_extent.width != u32::MAX ==> chosen_extent(caps, width, height) == caps.current_extent,
        caps.current_extent.width == u32::MAX && caps.min_image_extent.width <= width <= caps.max_image_extent.width
            ==> chosen_extent(caps, width, height).width == width,
        caps.current_extent.width == u32::MAX && caps.min_image_extent.height <= height <= caps.max_image_extent.height
            ==> chosen_extent(caps, width, height).height == height,
        caps.current_extent.width == u32::MAX && width < caps.min_image_extent.width
            ==> chosen_extent(caps, width, height).width == caps.min_image_extent.width,
        caps.current_extent.width == u32::MAX && width > caps.max_image_extent.width
            ==> chosen_extent(caps, width, height).width == caps.max_image_extent.width,
        caps.current_extent.width == u32::MAX && height < caps.min_image_extent.height
            ==> chosen_extent(caps, width, height).height == caps.min_image_extent.height,
        caps.current_extent.width == u32::MAX && height > caps.max_image_extent.height
            ==> chosen_extent(caps, width, height).height == caps.max_image_extent.height,
{
}

/// Mailbox asks for three images, other modes for one more than the least;
/// that number is kept where the surface allows it, and otherwise brought to
/// the nearest limit.
pub proof fn law_image_count_asked(caps: SurfaceCapabilities, present_mode: i32)
    requires
        caps.min_image_count < u32::MAX,
    ensures
        present_mode == PRESENT_MODE_MAILBOX && (caps.max_image_count == 0 || caps.min_image_count <= 3 <= caps.max_image_count)
            ==> chosen_image_count(caps, present_mode) == 3,
        present_mode == PRESENT_MODE_MAILBOX && caps.max_image_count > 0 && 3 < caps.min_image_count
            ==> chosen_image_count(caps, present_mode) == caps.min_image_count,
        present_mode == PRESENT_MODE_MAILBOX && 0 < caps.max_image_count < 3 && caps.min_image_count <= caps.max_image_count
            ==> chosen_image_count(caps, present_mode) == caps.max_image_count,
        present_mode != PRESENT_MODE_MAILBOX && (caps.max_image_count == 0 || caps.min_image_count + 1 <= caps.max_image_count)
            ==> chosen_image_count(caps, present_mode) == caps.min_image_count + 1,
        present_mode != PRESENT_MODE_MAILBOX && caps.max_image_count > 0 && caps.min_image_count == caps.max_image_count
            ==> chosen_image_count(caps, present_mode) == caps.max_image_count,
        caps.max_image_count > 0 && caps.max_image_count < caps.min_image_count
            ==> chosen_image_count(caps, present_mode) == caps.min_image_count,
{
}

/// Mailbox is chosen only where it is offered; otherwise FIFO, which every
/// surface offers.
pub proof fn law_present_mode_offered(modes: Seq<i32>)
    ensures
        chosen_present_mode(modes) == PRESENT_MODE_MAILBOX ==> modes.contains(PRESENT_MODE_MAILBOX),
        chosen_present_mode(modes) == PRESENT_MODE_MAILBOX || chosen_present_mode(modes) == PRESENT_MODE_FIFO,
{
}

/// The chosen format is one of those offered, and the preferred one wherever
/// it is offered.
pub proof fn law_format_offered(formats: Seq<SurfaceFormat>)
    requires
        formats.len() > 0,
    ensures
        formats.contains(chosen_format(formats)),
        (exists|i: int| 0 <= i < formats.len() && is_preferred_format(#[trigger] formats[i]))
            ==> is_preferred_format(chosen_format(formats)),
{
    if exists|i: int| 0 <= i < formats.len() && is_preferred_format(#[trigger] formats[i]) {
        let i = choose|i: int| 0 <= i < formats.len() && is_preferred_format(#[trigger] formats[i]);
        assert(formats[i] == chosen_format(formats));
    } else {
        assert(formats[0] == chosen_format(formats));
    }
}

} // verus!
