use rayn::camera::{CameraHandle, CameraStore};
use rayn::film::ChannelKind;
use rayn::integrator::{LaneFate, PathTracingIntegrator};
use rayn::material::{
    Dielectric, Emissive, EmissiveBSDF, Lambertian, LambertianBSDF, MaterialHandle, MaterialStore,
    Metallic, MetallicBSDF, SkyBSDF,
};
use rayn::sky::Sky;

#[test]
fn material_handles_are_registration_order() {
    let mut store = MaterialStore::new();
    let a = store.add_material("sky");
    let b = store.add_material("grey");
    assert_eq!(a, MaterialHandle(0));
    assert_eq!(b, MaterialHandle(1));
    assert_eq!(*store.get(b), "grey");
    assert_eq!(*store.get(a), "sky");
}

#[test]
fn camera_handles_are_registration_order() {
    let mut store = CameraStore::new();
    let a = store.add_camera(7u8);
    let b = store.add_camera(9u8);
    assert_eq!(a, CameraHandle(0));
    assert_eq!(*store.get(b), 9);
}

#[test]
fn materials_keep_their_generators() {
    assert_eq!(Lambertian::new(0.5f32).albedo_gen, 0.5);
    let d = Dielectric::new([0.2f32; 3], 0.6f32);
    assert_eq!(d.albedo_gen, [0.2; 3]);
    assert_eq!(d.roughness_gen, 0.6);
    let m = Metallic::new(1u8, 2u8);
    assert_eq!((m.f0_gen, m.roughness_gen), (1, 2));
    assert_eq!(Emissive::new(3.0f32).emission_gen, 3.0);
    let sky = Sky::new(1.0f32, 2.0f32);
    assert_eq!((sky.wide_top, sky.wide_bottom), (1.0, 2.0));
}

#[test]
fn only_the_sky_declines_to_scatter() {
    assert!(!SkyBSDF {}.scatters());
    assert!(LambertianBSDF { albedo: 0.5f32 }.scatters());
    assert!(MetallicBSDF { f0: 0.04f32, roughness: 0.1f32 }.scatters());
    let e = EmissiveBSDF { inner: LambertianBSDF { albedo: 0.5f32 }, emission: 3.0f32 };
    assert!(e.scatters());
}

#[test]
fn integrator_limits_light_samples() {
    let i = PathTracingIntegrator::new(5, 2, 4, 1).unwrap();
    assert_eq!(i.max_bounces, 5);
    assert_eq!(i.volume_marches, 2);
    assert_eq!(i.light_samples_per_volume_march, 4);
    assert_eq!(i.light_samples_per_path_vertex, 1);
    assert!(PathTracingIntegrator::new(5, 2, 5, 1).is_err());
    assert!(PathTracingIntegrator::new(5, 2, 1, 5).is_err());
}

#[test]
fn integrator_sample_set_counts() {
    let i = PathTracingIntegrator::new(5, 2, 1, 1).unwrap();
    assert_eq!(i.requested_1d_sample_sets(), 6 * 13);
    assert_eq!(i.requested_2d_sample_sets(), 6 * 32);
}

#[test]
fn roulette_starts_after_two_bounces() {
    assert!(!PathTracingIntegrator::roulette_applies(2));
    assert!(PathTracingIntegrator::roulette_applies(3));
}

#[test]
fn lane_fates() {
    let i = PathTracingIntegrator::new(1, 0, 1, 1).unwrap();
    assert_eq!(i.lane_fate(0, false, false), LaneFate::Empty);
    assert_eq!(i.lane_fate(0, true, false), LaneFate::Continue);
    assert_eq!(i.lane_fate(0, true, true), LaneFate::Finish);
    assert_eq!(i.lane_fate(1, true, false), LaneFate::Finish);
}

#[test]
fn escaped_rays_tag_background_only_on_camera_rays() {
    assert_eq!(PathTracingIntegrator::escaped_ray_channel(0), ChannelKind::Background);
    assert_eq!(PathTracingIntegrator::escaped_ray_channel(2), ChannelKind::Color);
    assert!(PathTracingIntegrator::writes_surface_channels(0));
    assert!(!PathTracingIntegrator::writes_surface_channels(1));
}

#[test]
fn light_selection_stays_in_range() {
    let i = PathTracingIntegrator::new(3, 0, 2, 3).unwrap();
    assert_eq!(i.lights_per_vertex(), 3);
    assert_eq!(PathTracingIntegrator::light_index(2, 8), 2);
    assert_eq!(PathTracingIntegrator::light_index(8, 8), 7);
    assert_eq!(PathTracingIntegrator::light_index(0, 1), 0);
}
