use std::sync::Arc;

use render_core::geometry::{pnt3_distance_squared, Normal3i, Point3i, Vector3i};
use render_core::interaction::InteractionCommon;
use render_core::light::{
    is_delta_light, Light, Ray, Scene, AREA, DELTA_DIRECTION, DELTA_POSITION, INFINITE,
};
use render_core::lights::point::PointLight;
use render_core::medium::{Medium, MediumInterface};
use render_core::sample::{Sample, SamplePoint, HALF};
use render_core::spectrum::{Pdf, Spectrum};
use render_core::transform::{Row, Transform};

fn light_at(x: i32, y: i32, z: i32, i: Spectrum) -> PointLight {
    PointLight::new(&Transform::translate(x, y, z), &MediumInterface::vacuum(), &i)
}

fn shading_point(p: Point3i) -> InteractionCommon {
    InteractionCommon {
        p,
        time: 17,
        p_error: Vector3i { x: 1, y: 2, z: 3 },
        wo: Vector3i { x: 0, y: 0, z: 9 },
        n: Normal3i { x: 0, y: 1, z: 0 },
        medium_interface: Some(MediumInterface {
            inside: Some(Arc::new(Medium { id: 5 })),
            outside: None,
        }),
    }
}

fn u() -> SamplePoint {
    SamplePoint {
        x: Sample { stratum: 0, offset: HALF, strata: 1 },
        y: Sample { stratum: 1, offset: 7, strata: 3 },
    }
}

#[test]
fn point_light_stands_at_the_image_of_the_origin() {
    let light = light_at(3, -4, 12, Spectrum::new(10));
    assert_eq!(light.p_light, Point3i { x: 3, y: -4, z: 12 });
    let turned = Transform {
        row_x: Row { x: 0, y: -1, z: 0, t: i32::MAX },
        row_y: Row { x: 1, y: 0, z: 0, t: i32::MIN },
        row_z: Row { x: 7, y: 7, z: 7, t: 0 },
    };
    let light = PointLight::new(&turned, &MediumInterface::vacuum(), &Spectrum::new(1));
    assert_eq!(light.p_light, Point3i { x: i32::MAX, y: i32::MIN, z: 0 });
    assert_eq!(turned.transform_point(&Point3i::origin()), Some(light.p_light));
    assert_eq!(turned.transform_origin(), light.p_light);
}

#[test]
fn point_light_is_a_delta_light_with_one_sample() {
    let i = Spectrum { r: 1, g: 2, b: 3 };
    let light = light_at(0, 0, 0, i);
    assert_eq!(light.i, i);
    assert_eq!(light.get_flags(), DELTA_POSITION);
    assert_eq!(light.get_flags(), 1);
    assert_eq!(light.get_n_samples(), 1);
    assert!(is_delta_light(light.get_flags()));
    assert!(is_delta_light(DELTA_DIRECTION));
    assert!(!is_delta_light(AREA | INFINITE));
}

#[test]
fn point_light_shares_its_media_with_the_scene() {
    let inside = Arc::new(Medium { id: 1 });
    let outside = Arc::new(Medium { id: 2 });
    let mi = MediumInterface { inside: Some(inside.clone()), outside: Some(outside.clone()) };
    let light = PointLight::new(&Transform::translate(0, 0, 0), &mi, &Spectrum::new(1));
    assert!(Arc::ptr_eq(light.medium_interface.inside.as_ref().unwrap(), &inside));
    assert!(Arc::ptr_eq(light.medium_interface.outside.as_ref().unwrap(), &outside));
    assert_eq!(Arc::strong_count(&inside), 3);
    let half = MediumInterface { inside: None, outside: Some(outside.clone()) };
    let shared = half.share();
    assert!(shared.inside.is_none());
    assert_eq!(*shared.outside.unwrap(), Medium { id: 2 });
}

#[test]
fn sample_li_gives_the_vector_to_the_light_and_the_inverse_square() {
    let i = Spectrum { r: 100, g: 50, b: 25 };
    let light = light_at(1, 2, 3, i);
    let iref = shading_point(Point3i { x: 4, y: 6, z: 3 });
    let r = light.sample_li(&iref, &u());
    assert_eq!(r.wi, Vector3i { x: -3, y: -4, z: 0 });
    assert_eq!(r.distance_squared, 25);
    assert_eq!(r.wi.length_squared(), r.distance_squared);
    assert_eq!(r.pdf, Pdf::One);
    assert_eq!(r.intensity, i);
    // as numbers: a unit direction, and the intensity over the square of the distance
    let d = (r.distance_squared as f64).sqrt();
    let wi = (r.wi.x as f64 / d, r.wi.y as f64 / d, r.wi.z as f64 / d);
    assert_eq!(wi, (-0.6, -0.8, 0.0));
    assert_eq!(wi.0 * wi.0 + wi.1 * wi.1 + wi.2 * wi.2, 1.0);
    assert_eq!(r.intensity.r as f64 / r.distance_squared as f64, 4.0);
}

#[test]
fn sample_li_builds_the_two_ends_of_the_shadow_ray() {
    let light = light_at(1, 2, 3, Spectrum::new(1));
    let iref = shading_point(Point3i { x: 4, y: 6, z: 3 });
    let r = light.sample_li(&iref, &u());
    let p0 = r.vis.p0();
    assert_eq!(p0.p, iref.p);
    assert_eq!(p0.time, 17);
    assert_eq!(p0.p_error, iref.p_error);
    assert_eq!(p0.wo, iref.wo);
    assert_eq!(p0.n, iref.n);
    assert!(p0.medium_interface.is_none());
    let p1 = r.vis.p1();
    assert_eq!(p1.p, Point3i { x: 1, y: 2, z: 3 });
    assert_eq!(p1.time, 17);
    assert_eq!(p1.p_error, Vector3i { x: 0, y: 0, z: 0 });
    assert_eq!(p1.wo, Vector3i { x: 0, y: 0, z: 0 });
    assert_eq!(p1.n, Normal3i { x: 0, y: 0, z: 0 });
    assert!(p1.medium_interface.is_none());
}

#[test]
fn sample_li_does_not_read_the_sample() {
    let light = light_at(-5, 0, 5, Spectrum::new(3));
    let iref = shading_point(Point3i { x: 0, y: 0, z: 0 });
    let a = light.sample_li(&iref, &u());
    let b = light.sample_li(&iref, &SamplePoint::zero());
    assert_eq!((a.wi, a.distance_squared, a.pdf, a.intensity), (b.wi, b.distance_squared, b.pdf, b.intensity));
    assert_eq!(a.distance_squared, 50);
}

#[test]
fn sample_li_is_exact_across_the_whole_grid() {
    let light = light_at(i32::MAX, i32::MAX, i32::MAX, Spectrum::new(1));
    let iref = shading_point(Point3i { x: i32::MIN, y: i32::MIN, z: i32::MIN });
    let r = light.sample_li(&iref, &u());
    let side: i64 = (1i64 << 32) - 1;
    assert_eq!(r.wi, Vector3i { x: side, y: side, z: side });
    assert_eq!(r.distance_squared, 3 * (side as u128) * (side as u128));
}

#[test]
fn sample_li_at_the_light_itself_has_no_distance() {
    let light = light_at(1, 1, 1, Spectrum::new(1));
    let iref = shading_point(Point3i { x: 1, y: 1, z: 1 });
    let r = light.sample_li(&iref, &u());
    assert_eq!(r.distance_squared, 0);
    assert_eq!(r.wi, Vector3i::zero());
    let near = light.sample_li(&shading_point(Point3i { x: 1, y: 1, z: 2 }), &u());
    assert_eq!(near.distance_squared, 1);
}

#[test]
fn power_is_four_pi_times_the_intensity() {
    for v in [0i64, 1, 25, -3, i64::MAX] {
        let light = light_at(0, 0, 0, Spectrum::new(v));
        let p = light.power();
        assert_eq!(p.spectrum, Spectrum::new(v));
        assert_eq!(p.pi_factor, 4);
    }
    let p = light_at(0, 0, 0, Spectrum { r: 2, g: 3, b: 5 }).power();
    let watts = p.spectrum.g as f64 * (p.pi_factor as f64 * std::f64::consts::PI);
    assert_eq!(watts, 3.0 * 4.0 * std::f64::consts::PI);
}

#[test]
fn pdf_li_is_zero_whatever_is_asked() {
    let light = light_at(1, 2, 3, Spectrum::new(9));
    for p in [Point3i { x: 1, y: 2, z: 3 }, Point3i { x: 0, y: 0, z: 0 }, Point3i { x: -7, y: 8, z: 1 }] {
        for wi in [Vector3i::zero(), Vector3i { x: 1, y: 2, z: 3 }, Vector3i { x: 0, y: 0, z: -1 }] {
            assert_eq!(light.pdf_li(&shading_point(p), wi), Pdf::Zero);
        }
    }
}

#[test]
fn le_is_black() {
    let light = light_at(1, 2, 3, Spectrum::new(9));
    let ray = Ray { o: Point3i { x: 0, y: 0, z: 0 }, d: Vector3i { x: 1, y: 0, z: 0 }, time: 0 };
    assert_eq!(light.le(&ray), Spectrum::new(0));
    assert!(light.le(&ray).is_black());
    assert!(!light.i.is_black());
}

#[test]
fn sample_le_leaves_the_light_uniformly() {
    let i = Spectrum { r: 7, g: 8, b: 9 };
    let light = light_at(1, 2, 3, i);
    let r = light.sample_le(&u(), &SamplePoint::zero(), 42);
    assert_eq!(r.origin, Point3i { x: 1, y: 2, z: 3 });
    assert_eq!(r.direction_sample, u());
    assert_eq!(r.t_max, None);
    assert_eq!(r.time, 42);
    assert_eq!(r.pdf_pos, Pdf::One);
    assert_eq!(r.pdf_dir, Pdf::UniformSphere);
    assert_eq!(r.radiance, i);
}

#[test]
fn pdf_le_is_zero_for_the_position_and_uniform_for_the_direction() {
    let light = light_at(1, 2, 3, Spectrum::new(1));
    let ray = Ray { o: Point3i { x: 1, y: 2, z: 3 }, d: Vector3i { x: 0, y: 1, z: 0 }, time: 3 };
    assert_eq!(light.pdf_le(&ray, &Normal3i { x: 0, y: 1, z: 0 }), (Pdf::Zero, Pdf::UniformSphere));
}

#[test]
fn preprocess_leaves_the_light_as_it_is() {
    let light = light_at(1, 2, 3, Spectrum::new(4));
    light.preprocess(&Scene {});
    assert_eq!(light.p_light, Point3i { x: 1, y: 2, z: 3 });
    assert_eq!(light.i, Spectrum::new(4));
}

#[test]
fn transform_point_is_exact_or_nothing() {
    let t = Transform {
        row_x: Row { x: 2, y: 0, z: 0, t: 1 },
        row_y: Row { x: 0, y: -3, z: 1, t: 0 },
        row_z: Row { x: 1, y: 1, z: 1, t: -10 },
    };
    let p = Point3i { x: 5, y: 7, z: 11 };
    assert_eq!(t.transform_point(&p), Some(Point3i { x: 11, y: -10, z: 13 }));
    let far = Point3i { x: i32::MAX, y: 0, z: 0 };
    assert_eq!(t.transform_point(&far), None);
    let edge = Point3i { x: (i32::MAX - 1) / 2, y: 0, z: 0 };
    assert_eq!(t.transform_point(&edge).map(|q| q.x), Some(i32::MAX));
    let big = Transform {
        row_x: Row { x: i32::MIN, y: i32::MIN, z: i32::MIN, t: i32::MIN },
        row_y: Row { x: 0, y: 0, z: 0, t: 0 },
        row_z: Row { x: 0, y: 0, z: 0, t: 0 },
    };
    assert_eq!(big.transform_point(&Point3i { x: i32::MIN, y: i32::MIN, z: i32::MIN }), None);
    assert_eq!(Transform::translate(1, 2, 3).transform_point(&p), Some(Point3i { x: 6, y: 9, z: 14 }));
}

#[test]
fn distance_squared_is_exact() {
    let a = Point3i { x: 1, y: 2, z: 3 };
    let b = Point3i { x: -1, y: 5, z: 9 };
    assert_eq!(pnt3_distance_squared(&a, &b), 4 + 9 + 36);
    assert_eq!(pnt3_distance_squared(&a, &a), 0);
    assert_eq!(a.vector_from(&b), Vector3i { x: 2, y: -3, z: -6 });
    let v = Vector3i { x: i64::MIN, y: i64::MIN, z: i64::MIN };
    assert_eq!(v.length_squared(), 3u128 << 126);
}

#[test]
fn light_of_any_kind_answers_for_the_point_light() {
    let i = Spectrum { r: 9, g: 8, b: 7 };
    let light = Light::Point(light_at(0, 3, 4, i));
    let iref = shading_point(Point3i { x: 0, y: 0, z: 0 });
    let r = light.sample_li(&iref, &u());
    assert_eq!(r.wi, Vector3i { x: 0, y: 3, z: 4 });
    assert_eq!(r.distance_squared, 25);
    assert_eq!(r.pdf, Pdf::One);
    assert_eq!(r.intensity, i);
    assert_eq!(r.vis.p1().p, Point3i { x: 0, y: 3, z: 4 });
    assert_eq!(light.power().spectrum, i);
    assert_eq!(light.power().pi_factor, 4);
    assert_eq!(light.pdf_li(&iref, r.wi), Pdf::Zero);
    let ray = Ray { o: Point3i { x: 0, y: 0, z: 0 }, d: Vector3i { x: 1, y: 0, z: 0 }, time: 0 };
    assert!(light.le(&ray).is_black());
    let le = light.sample_le(&u(), &u(), 6);
    assert_eq!(le.origin, Point3i { x: 0, y: 3, z: 4 });
    assert_eq!(le.radiance, i);
    assert_eq!((le.pdf_pos, le.pdf_dir), (Pdf::One, Pdf::UniformSphere));
    assert_eq!(light.pdf_le(&ray, &Normal3i { x: 1, y: 0, z: 0 }), (Pdf::Zero, Pdf::UniformSphere));
    assert_eq!(light.get_flags(), DELTA_POSITION);
    assert_eq!(light.get_n_samples(), 1);
    light.preprocess(&Scene {});
}

#[test]
fn a_cloned_light_is_the_same_light_with_the_same_media() {
    let inside = Arc::new(Medium { id: 11 });
    let mi = MediumInterface { inside: Some(inside.clone()), outside: None };
    let light = PointLight::new(&Transform::translate(1, 2, 3), &mi, &Spectrum { r: 4, g: 5, b: 6 });
    let copy = light.clone();
    assert_eq!(copy.p_light, light.p_light);
    assert_eq!(copy.i, light.i);
    assert_eq!(copy.flags, light.flags);
    assert_eq!(copy.n_samples, light.n_samples);
    assert!(Arc::ptr_eq(copy.medium_interface.inside.as_ref().unwrap(), &inside));
    assert!(copy.medium_interface.outside.is_none());
    assert_eq!(Arc::strong_count(&inside), 4);
    let again = mi.clone();
    assert!(Arc::ptr_eq(again.inside.as_ref().unwrap(), &inside));
}
