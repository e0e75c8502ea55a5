use std::cell::Cell;

use diorama::{may_trace, nearest_of, shade, NearestHit, Secondary, ShadeSteps, Transmission, MAX_DEPTH};

#[test]
fn nearest_picks_the_smallest_key() {
    assert_eq!(nearest_of(&vec![Some(5), None, Some(3), Some(4)]), Some(2));
}

#[test]
fn nearest_keeps_the_first_of_equal_keys() {
    assert_eq!(nearest_of(&vec![None, Some(3), Some(3), Some(3)]), Some(1));
    assert_eq!(nearest_of(&vec![Some(0), Some(0)]), Some(0));
}

#[test]
fn nearest_of_misses_is_none() {
    assert_eq!(nearest_of(&vec![None, None, None]), None);
    assert_eq!(nearest_of(&vec![]), None);
}

#[test]
fn distance_bits_order_like_distances() {
    let d: Vec<f32> = vec![4.5, 0.25, 7.0, 0.25];
    let keys: Vec<Option<u32>> = d.iter().map(|x| Some(x.to_bits())).collect();
    assert_eq!(nearest_of(&keys), Some(1));
}

#[test]
fn running_search_reports_its_bound() {
    let mut s = NearestHit::new();
    assert_eq!(s.bound(), None);
    s.offer(Some(10));
    s.offer(None);
    assert_eq!(s.bound(), Some(10));
    s.offer(Some(10));
    assert_eq!(s.best(), Some(0));
    s.offer(Some(2));
    assert_eq!(s.best(), Some(3));
    assert_eq!(s.bound(), Some(2));
}

#[test]
fn depth_guard() {
    assert!(may_trace(0));
    assert!(may_trace(MAX_DEPTH - 1));
    assert!(!may_trace(MAX_DEPTH));
    assert!(!may_trace(u32::MAX));
}

/// Every ray hits a mirror that also transmits: the worst case for recursion.
struct HallOfMirrors {
    calls: Cell<u32>,
    deepest: Cell<u32>,
    refract: bool,
}

impl HallOfMirrors {
    fn render(&self, depth: u32) -> u32 {
        let steps = ShadeSteps {
            nearest: |ray: &u32| {
                self.calls.set(self.calls.get() + 1);
                self.deepest.set(self.deepest.get().max(*ray));
                Some(())
            },
            background: |_ray: &u32| 1000u32,
            direct: |_ray: &u32, _hit: &()| 1u32,
            secondary: |ray: &u32, _hit: &()| {
                let transmitted = if self.refract { Transmission::Refracted(ray + 1) } else { Transmission::TotalInternal };
                Some(Secondary { reflected: ray + 1, transmitted })
            },
            blend: |_ray: &u32, _hit: &(), direct: u32, reflected: u32, transmitted: Option<u32>| {
                direct + reflected + transmitted.unwrap_or(0)
            },
        };
        shade(&steps, &depth, depth)
    }
}

#[test]
fn shading_recursion_is_bounded() {
    let s = HallOfMirrors { calls: Cell::new(0), deepest: Cell::new(0), refract: true };
    let c = s.render(0);
    // 1 + 2 + 4 surfaces are shaded; 8 rays at depth 3 get the background
    assert_eq!(s.calls.get(), 7);
    assert_eq!(s.deepest.get(), MAX_DEPTH - 1);
    assert_eq!(c, 7 + 8 * 1000);
}

#[test]
fn total_internal_reflection_reuses_the_reflection() {
    let s = HallOfMirrors { calls: Cell::new(0), deepest: Cell::new(0), refract: false };
    let c = s.render(0);
    assert_eq!(s.calls.get(), 3);
    // depth 2: 1 + 1000 + 1000; depth 1: 1 + 2 * 2001; depth 0: 1 + 2 * 4003
    assert_eq!(c, 8007);
}

#[test]
fn no_query_at_the_depth_limit() {
    let s = HallOfMirrors { calls: Cell::new(0), deepest: Cell::new(0), refract: true };
    assert_eq!(s.render(MAX_DEPTH), 1000);
    assert_eq!(s.calls.get(), 0);
}

fn empty_scene(depth: u32) -> u8 {
    let steps = ShadeSteps {
        nearest: |_ray: &()| None::<()>,
        background: |_ray: &()| 26u8,
        direct: |_ray: &(), _hit: &()| 0u8,
        secondary: |_ray: &(), _hit: &()| None::<Secondary<()>>,
        blend: |_ray: &(), _hit: &(), direct: u8, _r: u8, _t: Option<u8>| direct,
    };
    shade(&steps, &(), depth)
}

#[test]
fn escaped_and_exhausted_rays_get_the_background() {
    assert_eq!(empty_scene(0), 26);
    assert_eq!(empty_scene(MAX_DEPTH), 26);
}

#[test]
fn opaque_surfaces_blend_without_transmission() {
    let steps = ShadeSteps {
        nearest: |ray: &u32| if *ray == 0 { Some(5u32) } else { None },
        background: |_ray: &u32| 100u32,
        direct: |_ray: &u32, hit: &u32| *hit,
        secondary: |_ray: &u32, _hit: &u32| Some(Secondary { reflected: 1u32, transmitted: Transmission::Opaque }),
        blend: |_ray: &u32, _hit: &u32, d: u32, r: u32, t: Option<u32>| {
            assert!(t.is_none());
            d * 1000 + r
        },
    };
    // direct light 5, the reflected ray misses: background 100
    assert_eq!(shade(&steps, &0, 0), 5100);
}
