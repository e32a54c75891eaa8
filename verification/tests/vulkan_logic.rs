use ash::vk;
use ft_engine::descriptor::{
    AllocationNext, DescriptorAllocator, DescriptorSetLayoutCreateInfoBuilder, LayoutBinding, PoolSize, PoolSource,
};
use ft_engine::frame::{acquire_outcome, advance_frame, present_outcome, FrameStep, ERROR_OUT_OF_DATE, SUBOPTIMAL};
use ft_engine::pipeline::{
    GraphicsPipelineInfoBuilder, COLOR_COMPONENT_RGBA, COMPARE_OP_LESS, COMPARE_OP_NEVER, CULL_MODE_BACK,
    FRONT_FACE_COUNTER_CLOCKWISE, LOGIC_OP_COPY, CULL_MODE_NONE, FRONT_FACE_CLOCKWISE, SAMPLE_COUNT_1, TOPOLOGY_TRIANGLE_LIST, TOPOLOGY_TRIANGLE_STRIP,
};
use ft_engine::queue_families::{find_device_by_name, QueueFamilies, QueueFamilyInfo, QUEUE_GRAPHICS_BIT};
use ft_engine::surface::{
    choose_basic_image_count, choose_extent, choose_image_count, choose_present_mode, choose_surface_format,
    is_physical_device_compatible, Extent2D, SurfaceCapabilities, SurfaceFormat, COLOR_SPACE_SRGB_NONLINEAR,
    FORMAT_B8G8R8A8_SRGB, PRESENT_MODE_FIFO, PRESENT_MODE_MAILBOX,
};

#[test]
fn constants_match_vulkan() {
    assert_eq!(FORMAT_B8G8R8A8_SRGB, vk::Format::B8G8R8A8_SRGB.as_raw());
    assert_eq!(COLOR_SPACE_SRGB_NONLINEAR, vk::ColorSpaceKHR::SRGB_NONLINEAR.as_raw());
    assert_eq!(PRESENT_MODE_MAILBOX, vk::PresentModeKHR::MAILBOX.as_raw());
    assert_eq!(PRESENT_MODE_FIFO, vk::PresentModeKHR::FIFO.as_raw());
    assert_eq!(QUEUE_GRAPHICS_BIT, vk::QueueFlags::GRAPHICS.as_raw());
    assert_eq!(ERROR_OUT_OF_DATE, vk::Result::ERROR_OUT_OF_DATE_KHR.as_raw());
    assert_eq!(SUBOPTIMAL, vk::Result::SUBOPTIMAL_KHR.as_raw());
    assert_eq!(TOPOLOGY_TRIANGLE_LIST, vk::PrimitiveTopology::TRIANGLE_LIST.as_raw());
    assert_eq!(TOPOLOGY_TRIANGLE_STRIP, vk::PrimitiveTopology::TRIANGLE_STRIP.as_raw());
    assert_eq!(CULL_MODE_BACK, vk::CullModeFlags::BACK.as_raw());
    assert_eq!(FRONT_FACE_COUNTER_CLOCKWISE, vk::FrontFace::COUNTER_CLOCKWISE.as_raw());
    assert_eq!(SAMPLE_COUNT_1, vk::SampleCountFlags::TYPE_1.as_raw());
    assert_eq!(COLOR_COMPONENT_RGBA, vk::ColorComponentFlags::RGBA.as_raw());
    assert_eq!(LOGIC_OP_COPY, vk::LogicOp::COPY.as_raw());
    assert_eq!(COMPARE_OP_LESS, vk::CompareOp::LESS.as_raw());
    assert_eq!(COMPARE_OP_NEVER, vk::CompareOp::NEVER.as_raw());
}

fn fmt(format: i32, color_space: i32) -> SurfaceFormat {
    SurfaceFormat { format, color_space }
}

#[test]
fn surface_format_prefers_srgb() {
    let r = choose_surface_format(&vec![fmt(44, 0), fmt(50, 0), fmt(37, 0)]);
    assert_eq!((r.format, r.color_space), (50, 0));
    let r = choose_surface_format(&vec![fmt(44, 0), fmt(50, 7)]);
    assert_eq!((r.format, r.color_space), (44, 0));
}

#[test]
fn present_mode_prefers_mailbox() {
    assert_eq!(choose_present_mode(&vec![2, 1, 3]), PRESENT_MODE_MAILBOX);
    assert_eq!(choose_present_mode(&vec![2, 3]), PRESENT_MODE_FIFO);
    assert_eq!(choose_present_mode(&vec![]), PRESENT_MODE_FIFO);
}

fn caps(min: u32, max: u32, current: (u32, u32)) -> SurfaceCapabilities {
    SurfaceCapabilities {
        min_image_count: min,
        max_image_count: max,
        current_extent: Extent2D { width: current.0, height: current.1 },
        min_image_extent: Extent2D { width: 10, height: 20 },
        max_image_extent: Extent2D { width: 1000, height: 500 },
    }
}

#[test]
fn extent_uses_surface_size_or_clamps() {
    let e = choose_extent(&caps(2, 0, (640, 480)), (800, 600));
    assert_eq!((e.width, e.height), (640, 480));
    let e = choose_extent(&caps(2, 0, (u32::MAX, u32::MAX)), (800, 600));
    assert_eq!((e.width, e.height), (800, 500));
    let e = choose_extent(&caps(2, 0, (u32::MAX, 0)), (1, 2000));
    assert_eq!((e.width, e.height), (10, 500));
}

#[test]
fn image_count_rules() {
    assert_eq!(choose_image_count(&caps(2, 8, (1, 1)), PRESENT_MODE_FIFO), 3);
    assert_eq!(choose_image_count(&caps(2, 2, (1, 1)), PRESENT_MODE_FIFO), 2);
    assert_eq!(choose_image_count(&caps(1, 0, (1, 1)), PRESENT_MODE_MAILBOX), 3);
    assert_eq!(choose_image_count(&caps(5, 8, (1, 1)), PRESENT_MODE_MAILBOX), 5);
    assert_eq!(choose_image_count(&caps(5, 0, (1, 1)), PRESENT_MODE_MAILBOX), 3);
    assert_eq!(choose_basic_image_count(&caps(2, 0, (1, 1))), 3);
    assert_eq!(choose_basic_image_count(&caps(2, 2, (1, 1))), 2);
}

fn names(v: &[&str]) -> Vec<String> {
    v.iter().map(|s| s.to_string()).collect()
}

#[test]
fn device_compatibility() {
    let required = names(&["VK_KHR_swapchain", "VK_KHR_buffer_device_address"]);
    let swapchain = "VK_KHR_swapchain".to_string();
    let all = names(&["VK_KHR_buffer_device_address", "VK_KHR_swapchain", "other"]);
    assert!(is_physical_device_compatible(&all, &required, &swapchain, false, false));
    assert!(!is_physical_device_compatible(&all, &required, &swapchain, true, false));
    assert!(!is_physical_device_compatible(&all, &required, &swapchain, false, true));
    // A device that misses an extension is not refused here.
    let some = names(&["VK_KHR_swapchain"]);
    assert!(is_physical_device_compatible(&some, &required, &swapchain, true, true));
    let no_swapchain = names(&["VK_KHR_buffer_device_address"]);
    assert!(is_physical_device_compatible(&all, &no_swapchain, &swapchain, true, false));
}

fn fam(count: u32, flags: u32, present: bool) -> QueueFamilyInfo {
    QueueFamilyInfo { queue_count: count, queue_flags: flags, present_support: present }
}

#[test]
fn queue_family_selection_takes_last() {
    let f = QueueFamilies::select(&vec![fam(1, 1, true), fam(0, 1, true), fam(2, 3, true), fam(4, 2, true)]).unwrap();
    assert_eq!((f.graphics, f.present), (2, 2));
    assert!(QueueFamilies::select(&vec![fam(1, 1, false), fam(1, 2, true)]).is_none());
    assert_eq!(f.distinct_families(), vec![2]);
    assert_eq!(QueueFamilies { graphics: 0, present: 1 }.distinct_families(), vec![0, 1]);
}

#[test]
fn device_found_by_name() {
    let n = names(&["llvmpipe", "NVIDIA GeForce RTX 2060", "NVIDIA GeForce RTX 2060"]);
    assert_eq!(find_device_by_name(&n, &"NVIDIA GeForce RTX 2060".to_string()), Some(1));
    assert_eq!(find_device_by_name(&n, &"none".to_string()), None);
}

#[test]
fn frames_cycle() {
    assert_eq!(advance_frame(0, 3), (1, 1));
    assert_eq!(advance_frame(2, 3), (3, 0));
}

#[test]
fn acquire_and_present_outcomes() {
    assert!(matches!(acquire_outcome(Ok(2)), FrameStep::Render(2)));
    assert!(matches!(acquire_outcome(Err(ERROR_OUT_OF_DATE)), FrameStep::Recreate));
    assert!(matches!(acquire_outcome(Err(SUBOPTIMAL)), FrameStep::Recreate));
    assert!(matches!(acquire_outcome(Err(-4)), FrameStep::Fail(-4)));
    assert_eq!(present_outcome(Ok(true)), Ok(false));
    assert_eq!(present_outcome(Err(SUBOPTIMAL)), Ok(true));
    assert_eq!(present_outcome(Err(-3)), Err(-3));
}

#[test]
fn descriptor_allocator_cycle() {
    let mut a = DescriptorAllocator::new(4, vec![PoolSize { ty: 7, descriptor_count: 1 }]);
    assert_eq!(a.pool_sizes().len(), 1);
    assert!(matches!(a.next_pool(), PoolSource::Create(4)));
    assert!(matches!(a.record_attempt(100, true, true), AllocationNext::Done));
    assert_eq!(a.pools_to_reset(), vec![100, 100]);
    assert!(matches!(a.next_pool(), PoolSource::Ready(100)));
    assert!(matches!(a.record_attempt(100, true, false), AllocationNext::Retry));
    assert!(matches!(a.next_pool(), PoolSource::Ready(100)));
    assert!(matches!(a.next_pool(), PoolSource::Create(6)));
    assert!(matches!(a.record_attempt(200, false, true), AllocationNext::Done));
    assert_eq!(a.pools_to_reset(), vec![200, 100]);
    a.reclaim_full_pools();
    assert_eq!(a.pools_to_reset(), vec![200, 100]);
    assert!(matches!(a.next_pool(), PoolSource::Ready(100)));
    assert!(matches!(a.next_pool(), PoolSource::Ready(200)));
    assert!(matches!(a.next_pool(), PoolSource::Create(9)));
    a.record_attempt(300, true, true);
    assert_eq!(a.take_all_pools(), vec![300, 300]);
    assert_eq!(a.pools_to_reset(), Vec::<u64>::new());
}

#[test]
fn layout_builder_adds_stages() {
    let mut b = DescriptorSetLayoutCreateInfoBuilder::new();
    b.add_binding(LayoutBinding { binding: 0, descriptor_type: 7, descriptor_count: 1, stage_flags: 1 })
        .add_binding(LayoutBinding { binding: 1, descriptor_type: 6, descriptor_count: 2, stage_flags: 16 });
    let bindings = b.build();
    assert_eq!(bindings.len(), 2);
    assert_eq!((bindings[0].binding, bindings[0].stage_flags), (0, 1));
    assert_eq!((bindings[1].binding, bindings[1].descriptor_count, bindings[1].stage_flags), (1, 2, 16));
}

#[test]
fn pipeline_builder_settings() {
    let mut b = GraphicsPipelineInfoBuilder::new();
    assert_eq!(b.topology, TOPOLOGY_TRIANGLE_LIST);
    assert!(!b.depth_stencil.depth_test);
    b.set_obj_compatible().set_depth_stencil();
    assert_eq!(b.topology, TOPOLOGY_TRIANGLE_STRIP);
    assert!(b.primitive_restart);
    assert!(b.depth_stencil.depth_test && b.depth_stencil.depth_write);
    assert_eq!(b.depth_stencil.depth_compare_op, COMPARE_OP_LESS);
    assert_eq!(b.cull_mode, CULL_MODE_BACK);
}

#[test]
fn queue_families_new_takes_last_eligible() {
    let f = QueueFamilies::new(&vec![fam(1, 1, true), fam(3, 1, true), fam(1, 1, false)]);
    assert_eq!((f.graphics, f.present), (1, 1));
}

#[test]
fn next_pool_fits_until_growth_overflows() {
    let mut a = DescriptorAllocator::new(10, vec![]);
    assert!(a.next_pool_fits());
    assert!(matches!(a.next_pool(), PoolSource::Create(10)));
    assert!(matches!(a.next_pool(), PoolSource::Create(15)));
    let big = DescriptorAllocator::new(u32::MAX, vec![]);
    assert!(!big.next_pool_fits());
    let edge = DescriptorAllocator::new(2_863_311_530, vec![]);
    assert!(edge.next_pool_fits());
    let over = DescriptorAllocator::new(2_863_311_532, vec![]);
    assert!(!over.next_pool_fits());
    let mut ready = DescriptorAllocator::new(u32::MAX, vec![]);
    ready.record_attempt(3, false, true);
    assert!(ready.next_pool_fits());
    assert!(matches!(ready.next_pool(), PoolSource::Ready(3)));
}

#[test]
fn unculled_settings_differ_only_in_culling() {
    let b = GraphicsPipelineInfoBuilder::without_culling();
    assert_eq!(b.cull_mode, CULL_MODE_NONE);
    assert_eq!(b.cull_mode, vk::CullModeFlags::NONE.as_raw());
    assert_eq!(b.front_face, FRONT_FACE_CLOCKWISE);
    assert_eq!(b.front_face, vk::FrontFace::CLOCKWISE.as_raw());
    let d = GraphicsPipelineInfoBuilder::new();
    assert_eq!(b.topology, d.topology);
    assert_eq!(b.topology, TOPOLOGY_TRIANGLE_LIST);
    assert_eq!(b.rasterization_samples, SAMPLE_COUNT_1);
    assert_eq!(b.color_write_mask, COLOR_COMPONENT_RGBA);
    assert!(!b.blend && !b.primitive_restart && !b.depth_stencil.depth_test);
    assert_ne!(d.cull_mode, b.cull_mode);
}
