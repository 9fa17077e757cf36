//! The rendering core: reflection, refraction, intersection and the
//! recursive shading integrator, with the per-pixel frame driver.

use crate::fixed::{
    abs_s, clamp_s, clip_s, div_floor_s, fp_abs, fp_add, fp_add_s, fp_clamp, fp_div, fp_div_s,
    fp_max, fp_mul, fp_mul_s, fp_neg, fp_pow, fp_pow_s, fp_sqrt, fp_sqrt_s, fp_sub, fp_sub_s,
    in_range, max_s, trunc_s, div_floor_i128, FP_BOUND, HALF_SCALE, SCALE,
};
use crate::primitive::{void_material_model, Material, MaterialModel, Sphere};
use crate::scene::Scene;
use crate::vec3::{
    add_v, dot_v, neg_v, norm_v, normalized_v, scale_v, sub_v, RenderError, Vec3,
};
use vstd::arithmetic::div_mod::{
    lemma_div_is_ordered, lemma_fundamental_div_mod, lemma_fundamental_div_mod_converse,
};
use vstd::prelude::*;

verus! {

/// Self-intersection epsilon: a hit distance must exceed this (about a
/// thousandth of a unit) so a secondary ray does not re-hit the surface
/// it just left.
pub const INTERSECT_EPS: i64 = 66;

/// Plane-hit epsilon, the distance floor for floor-plane intersections.
pub const PLANE_EPS: i64 = 7;

/// Model of `reflect`: `i - n * 2 * (i . n)`, the incident direction
/// mirrored about the surface normal.  Not renormalized.
pub open spec fn reflect_v(i: (int, int, int), n: (int, int, int)) -> (int, int, int) {
    sub_v(i, scale_v(scale_v(n, 2 * (SCALE as int)), dot_v(i, n)))
}

/// Reflect an incident vector `i` around a normal `n`.
pub fn reflect(i: &Vec3, n: &Vec3) -> (r: Vec3)
    requires
        i.wf(),
        n.wf(),
    ensures
        r@ == reflect_v(i@, n@),
        r.wf(),
{
    i.sub(n.scale(2 * SCALE).scale(i.dot(*n)))
}

/// Model of the rotation about the x axis by an angle with sine `s` and
/// cosine `c`.
pub open spec fn rotate_x_v(v: (int, int, int), s: int, c: int) -> (int, int, int) {
    (v.0, fp_sub_s(fp_mul_s(v.1, c), fp_mul_s(v.2, s)), fp_add_s(
        fp_mul_s(v.1, s),
        fp_mul_s(v.2, c),
    ))
}

/// Model of the rotation about the y axis.
pub open spec fn rotate_y_v(v: (int, int, int), s: int, c: int) -> (int, int, int) {
    (fp_sub_s(fp_mul_s(v.0, c), fp_mul_s(v.2, s)), v.1, fp_add_s(
        fp_mul_s(v.0, s),
        fp_mul_s(v.2, c),
    ))
}

/// Model of the rotation about the z axis.
pub open spec fn rotate_z_v(v: (int, int, int), s: int, c: int) -> (int, int, int) {
    (fp_sub_s(fp_mul_s(v.0, c), fp_mul_s(v.1, s)), fp_add_s(
        fp_mul_s(v.0, s),
        fp_mul_s(v.1, c),
    ), v.2)
}

/// Rotate `v` about the x axis; the angle is given by its sine and cosine.
pub fn rotate_at_axis_x(v: &Vec3, sine: i64, cosine: i64) -> (r: Vec3)
    requires
        v.wf(),
        in_range(sine as int),
        in_range(cosine as int),
    ensures
        r@ == rotate_x_v(v@, sine as int, cosine as int),
        r.wf(),
{
    Vec3::new(
        v.x,
        fp_sub(fp_mul(v.y, cosine), fp_mul(v.z, sine)),
        fp_add(fp_mul(v.y, sine), fp_mul(v.z, cosine)),
    )
}

/// Rotate `v` about the y axis; the angle is given by its sine and cosine.
pub fn rotate_at_axis_y(v: &Vec3, sine: i64, cosine: i64) -> (r: Vec3)
    requires
        v.wf(),
        in_range(sine as int),
        in_range(cosine as int),
    ensures
        r@ == rotate_y_v(v@, sine as int, cosine as int),
        r.wf(),
{
    Vec3::new(
        fp_sub(fp_mul(v.x, cosine), fp_mul(v.z, sine)),
        v.y,
        fp_add(fp_mul(v.x, sine), fp_mul(v.z, cosine)),
    )
}

/// Rotate `v` about the z axis; the angle is given by its sine and cosine.
pub fn rotate_at_axis_z(v: &Vec3, sine: i64, cosine: i64) -> (r: Vec3)
    requires
        v.wf(),
        in_range(sine as int),
        in_range(cosine as int),
    ensures
        r@ == rotate_z_v(v@, sine as int, cosine as int),
        r.wf(),
{
    Vec3::new(
        fp_sub(fp_mul(v.x, cosine), fp_mul(v.y, sine)),
        fp_add(fp_mul(v.x, sine), fp_mul(v.y, cosine)),
        v.z,
    )
}

/// The cosine of the angle of incidence: minus the clamped dot product of
/// the incident direction and the normal.
pub open spec fn incidence_cos_v(i: (int, int, int), n: (int, int, int)) -> int {
    -clamp_s(dot_v(i, n), -(SCALE as int), SCALE as int)
}

/// Model of one refraction step with the ray entering the surface
/// (non-negative cosine of incidence): Snell's law in the cosine
/// formulation.  Total internal reflection yields the sentinel direction
/// `(1, 0, 0)`, a documented approximation rather than a physical result.
pub open spec fn refract_core_v(
    i: (int, int, int),
    n: (int, int, int),
    eta_t: int,
    eta_i: int,
) -> (int, int, int) {
    let cosi = incidence_cos_v(i, n);
    let eta = fp_div_s(eta_i, eta_t);
    let k = fp_add_s(
        SCALE as int,
        fp_mul_s(fp_mul_s(eta, eta), fp_sub_s(fp_mul_s(cosi, cosi), SCALE as int)),
    );
    if k < 0 {
        (SCALE as int, 0int, 0int)
    } else {
        add_v(scale_v(i, eta), scale_v(n, fp_sub_s(fp_mul_s(eta, cosi), fp_sqrt_s(k))))
    }
}

/// Model of `refract`: when the cosine of incidence is negative the ray
/// is leaving the medium, so the normal is negated and the two indices
/// swap; either way one core step decides the direction.
pub open spec fn refract_v(
    i: (int, int, int),
    n: (int, int, int),
    eta_t: int,
    eta_i: int,
) -> (int, int, int) {
    if incidence_cos_v(i, n) < 0 {
        refract_core_v(i, neg_v(n), eta_i, eta_t)
    } else {
        refract_core_v(i, n, eta_t, eta_i)
    }
}

/// After flipping the normal, the cosine of incidence is strictly
/// positive, so the flipped call takes the non-flipped path.
pub proof fn lemma_refract_flip(i: (int, int, int), n: (int, int, int))
    requires
        incidence_cos_v(i, n) < 0,
    ensures
        incidence_cos_v(i, neg_v(n)) > 0,
{
    let p = i.0 * n.0 + i.1 * n.1 + i.2 * n.2;
    let s = SCALE as int;
    assert(clip_s(div_floor_s(p, s)) > 0);
    assert(p / s >= 1);
    assert(p >= s) by (nonlinear_arith)
        requires
            p == s * (p / s) + (p % s),
            p / s >= 1,
            p % s >= 0,
            s > 0,
    {
        lemma_fundamental_div_mod(p, s);
    }
    let q = i.0 * (neg_v(n).0) + i.1 * (neg_v(n).1) + i.2 * (neg_v(n).2);
    assert(q == -p) by (nonlinear_arith)
        requires
            q == i.0 * (-n.0) + i.1 * (-n.1) + i.2 * (-n.2),
            p == i.0 * n.0 + i.1 * n.1 + i.2 * n.2,
    ;
    lemma_div_is_ordered(-p, -s, s);
    assert((-s) / s == -1) by {
        lemma_fundamental_div_mod_converse(-s, s, -1, 0);
    }
    assert(div_floor_s(q, s) <= -1);
}

/// Refract an incident vector `i` around a normal `n` between media with
/// refractive indices `eta_t` (transmitted side) and `eta_i` (incident
/// side).
pub fn refract(i: &Vec3, n: &Vec3, eta_t: i64, eta_i: i64) -> (r: Vec3)
    requires
        i.wf(),
        n.wf(),
        0 < eta_t <= FP_BOUND as int,
        0 < eta_i <= FP_BOUND as int,
    ensures
        r@ == refract_v(i@, n@, eta_t as int, eta_i as int),
        r.wf(),
    decreases (if incidence_cos_v(i@, n@) < 0 {
        1int
    } else {
        0int
    }),
{
    let d: i64 = i.dot(*n);
    let cosi: i64 = fp_neg(fp_clamp(d, -SCALE, SCALE));

    if cosi < 0 {
        proof {
            lemma_refract_flip(i@, n@);
        }
        let flipped: Vec3 = n.neg();
        return refract(i, &flipped, eta_i, eta_t);
    }

    let eta: i64 = fp_div(eta_i, eta_t);
    let k: i64 = fp_add(SCALE, fp_mul(fp_mul(eta, eta), fp_sub(fp_mul(cosi, cosi), SCALE)));
    if k < 0 {
        Vec3::new(SCALE, 0, 0)
    } else {
        i.scale(eta).add(n.scale(fp_sub(fp_mul(eta, cosi), fp_sqrt(k))))
    }
}

/// Model of `ray_sphere_intersect`: project the center onto the ray,
/// compare the squared center distance with the squared radius, and take
/// the nearest root past the self-intersection epsilon.
pub open spec fn ray_sphere_v(o: (int, int, int), d: (int, int, int), s: Sphere) -> (bool, int) {
    let l = sub_v(s.center@, o);
    let tca = dot_v(l, d);
    let d2 = fp_sub_s(dot_v(l, l), fp_mul_s(tca, tca));
    let r2 = fp_mul_s(s.radius as int, s.radius as int);
    if d2 > r2 {
        (false, 0int)
    } else {
        let thc = fp_sqrt_s(fp_sub_s(r2, d2));
        let t0 = fp_sub_s(tca, thc);
        let t1 = fp_add_s(tca, thc);
        if t0 > INTERSECT_EPS {
            (true, t0)
        } else if t1 > INTERSECT_EPS {
            (true, t1)
        } else {
            (false, 0int)
        }
    }
}

/// Intersection of a ray with a sphere: whether it hits, and at which
/// distance along the ray.
pub fn ray_sphere_intersect(orig: &Vec3, dir: &Vec3, sphere: &Sphere) -> (r: (bool, i64))
    requires
        orig.wf(),
        dir.wf(),
        sphere.wf(),
    ensures
        r.0 == ray_sphere_v(orig@, dir@, *sphere).0,
        r.1 == ray_sphere_v(orig@, dir@, *sphere).1,
        r.0 ==> r.1 > INTERSECT_EPS,
        in_range(r.1 as int),
{
    let l: Vec3 = sphere.center.sub(*orig);
    let tca: i64 = l.dot(*dir);
    let d2: i64 = fp_sub(l.dot(l), fp_mul(tca, tca));
    let radius_sq: i64 = fp_mul(sphere.radius, sphere.radius);

    if d2 > radius_sq {
        return (false, 0);
    }

    let thc: i64 = fp_sqrt(fp_sub(radius_sq, d2));

    let t0: i64 = fp_sub(tca, thc);
    if t0 > INTERSECT_EPS {
        return (true, t0);
    }

    let t1: i64 = fp_add(tca, thc);
    if t1 > INTERSECT_EPS {
        return (true, t1);
    }

    (false, 0)
}

/// Offset added to the first checker coordinate before truncation, to
/// keep the truncation sign-consistent near the origin.  Changing it
/// shifts the pattern's phase.
pub const PATTERN_BIAS: i64 = 1000 * SCALE;

/// Model of `pattern`: the parity of the summed integer cell indices of
/// the two in-plane coordinates picks one of the two checker colors.
pub open spec fn pattern_v(
    a: int,
    b: int,
    light: (int, int, int),
    dark: (int, int, int),
) -> (int, int, int) {
    if (trunc_s(fp_add_s(a, PATTERN_BIAS as int)) + trunc_s(b)) % 2 == 1 {
        dark
    } else {
        light
    }
}

/// Checkerboard color of a point with in-plane coordinates `(a, b)`.
pub fn pattern(a: i64, b: i64, light: &Vec3, dark: &Vec3) -> (r: Vec3)
    requires
        in_range(a as int),
        in_range(b as int),
    ensures
        r@ == pattern_v(a as int, b as int, light@, dark@),
{
    let cell: i64 = crate::fixed::fp_trunc(fp_add(a, PATTERN_BIAS)) + crate::fixed::fp_trunc(b);
    let parity: u64 = if cell >= 0 {
        (cell as u64) % 2
    } else {
        proof {
            crate::fixed::lemma_parity_of_neg(cell as int);
        }
        ((-cell) as u64) % 2
    };
    if parity == 1 {
        *dark
    } else {
        *light
    }
}

/// A nearest distance below this counts as a real hit; the probe starts
/// "infinitely far" and only genuine geometry can come closer than the
/// cutoff.
pub const HIT_CUTOFF: i64 = 1000 * SCALE;

/// The running state of the nearest-hit search: closest distance so far
/// and the surface data found there.
pub ghost struct Probe {
    pub nearest: int,
    pub point: (int, int, int),
    pub normal: (int, int, int),
    pub material: MaterialModel,
}

/// A resolved scene intersection: the hit point, the surface normal
/// there, and the surface material.
#[derive(Clone, Copy, Debug)]
pub struct Hit {
    pub point: Vec3,
    pub normal: Vec3,
    pub material: Material,
}

/// The probe before any geometry is tested: as far as a scalar can be,
/// carrying the inert void material.
pub open spec fn initial_probe_v() -> Probe {
    Probe {
        nearest: FP_BOUND as int,
        point: (0int, 0int, 0int),
        normal: (0int, 0int, 0int),
        material: void_material_model(),
    }
}

/// Model of the floor test: where the ray is not parallel to the plane,
/// meets it past the epsilon and inside the rectangular bounds, the probe
/// records the hit with a straight-up normal and the dimmed checker color.
pub open spec fn floor_probe_v(s: Scene, o: (int, int, int), d: (int, int, int)) -> Probe {
    match s.floor {
        Option::None => initial_probe_v(),
        Option::Some(f) => {
            if abs_s(d.1) > INTERSECT_EPS {
                let t = fp_div_s(fp_sub_s(f.y as int, o.1), d.1);
                let p = add_v(o, scale_v(d, t));
                if t > PLANE_EPS && t < FP_BOUND && abs_s(p.0) < f.x_bound && abs_s(
                    fp_sub_s(p.2, f.z_center as int),
                ) < f.z_bound {
                    Probe {
                        nearest: t,
                        point: p,
                        normal: (0int, SCALE as int, 0int),
                        material: MaterialModel {
                            refractive_index: SCALE as int,
                            albedo: (2 * (SCALE as int), 0int, 0int, 0int),
                            diffuse_color: scale_v(
                                pattern_v(p.0, p.2, f.light_color@, f.dark_color@),
                                f.dim as int,
                            ),
                            specular_exponent: 0nat,
                        },
                    }
                } else {
                    initial_probe_v()
                }
            } else {
                initial_probe_v()
            }
        },
    }
}

/// Model of the sphere pass: fold the first `k` spheres over the floor
/// probe, overwriting only on a strictly closer hit; a hit point that
/// coincides with the sphere center has no normal and is an error.
pub open spec fn sphere_pass_v(
    s: Scene,
    o: (int, int, int),
    d: (int, int, int),
    k: nat,
) -> Result<Probe, RenderError>
    decreases k,
{
    if k == 0 {
        Ok(floor_probe_v(s, o, d))
    } else {
        match sphere_pass_v(s, o, d, (k - 1) as nat) {
            Err(e) => Err(e),
            Ok(st) => {
                let sp = s.spheres@[k - 1];
                let hit = ray_sphere_v(o, d, sp).0;
                let t = ray_sphere_v(o, d, sp).1;
                if hit && t < st.nearest {
                    let p = add_v(o, scale_v(d, t));
                    let nv = sub_v(p, sp.center@);
                    if norm_v(nv) == 0 {
                        Err(RenderError::DegenerateVector)
                    } else {
                        Ok(
                            Probe {
                                nearest: t,
                                point: p,
                                normal: normalized_v(nv),
                                material: sp.material@,
                            },
                        )
                    }
                } else {
                    Ok(st)
                }
            },
        }
    }
}

/// Model of `scene_intersect`: the full fold, with the cutoff deciding
/// whether anything was really hit.
pub open spec fn scene_intersect_v(s: Scene, o: (int, int, int), d: (int, int, int)) -> Result<
    Option<Probe>,
    RenderError,
> {
    match sphere_pass_v(s, o, d, s.spheres@.len()) {
        Err(e) => Err(e),
        Ok(st) => Ok(
            if st.nearest < HIT_CUTOFF as int {
                Some(st)
            } else {
                None
            },
        ),
    }
}

/// Once the sphere pass has failed it stays failed for every longer pass.
pub proof fn lemma_sphere_pass_err(s: Scene, o: (int, int, int), d: (int, int, int), k: nat, k2: nat)
    requires
        k <= k2,
        sphere_pass_v(s, o, d, k) is Err,
    ensures
        sphere_pass_v(s, o, d, k2) is Err,
    decreases k2 - k,
{
    if k2 > k {
        lemma_sphere_pass_err(s, o, d, k, (k2 - 1) as nat);
    }
}

/// Intersection of a ray with the whole scene: the nearest hit if one
/// exists, `None` if the ray escapes, or the degenerate-vector error if
/// a hit point falls on a sphere's center.
pub fn scene_intersect(scene: &Scene, orig: &Vec3, dir: &Vec3) -> (r: Result<
    Option<Hit>,
    RenderError,
>)
    requires
        scene.wf(),
        orig.wf(),
        dir.wf(),
    ensures
        (r is Err) == (scene_intersect_v(*scene, orig@, dir@) is Err),
        (r == Ok::<Option<Hit>, RenderError>(None)) <==> (scene_intersect_v(*scene, orig@, dir@)
            == Ok::<Option<Probe>, RenderError>(None)),
        r matches Ok(Some(h)) ==> (scene_intersect_v(*scene, orig@, dir@) matches Ok(op)
            && op matches Some(p) && h.point@ == p.point && h.normal@ == p.normal && h.material@
            == p.material && h.point.wf() && h.normal.wf() && h.material.wf()),
{
    let mut nearest: i64 = FP_BOUND;
    let mut pt: Vec3 = Vec3::new(0, 0, 0);
    let mut nrm: Vec3 = Vec3::new(0, 0, 0);
    let mut material: Material = Material::void();

    if let Some(f) = &scene.floor {
        if fp_abs(dir.y) > INTERSECT_EPS {
            let t: i64 = fp_div(fp_sub(f.y, orig.y), dir.y);
            let p: Vec3 = orig.add(dir.scale(t));
            if t > PLANE_EPS && t < FP_BOUND && fp_abs(p.x) < f.x_bound && fp_abs(
                fp_sub(p.z, f.z_center),
            ) < f.z_bound {
                nearest = t;
                pt = p;
                nrm = Vec3::new(0, SCALE, 0);
                let checker: Vec3 = pattern(p.x, p.z, &f.light_color, &f.dark_color);
                material.diffuse_color = checker.scale(f.dim);
            }
        }
    }
    proof {
        assert(floor_probe_v(*scene, orig@, dir@) == (Probe {
            nearest: nearest as int,
            point: pt@,
            normal: nrm@,
            material: material@,
        }));
    }

    let nspheres: usize = scene.spheres.len();
    let mut i: usize = 0;
    while i < nspheres
        invariant
            scene.wf(),
            orig.wf(),
            dir.wf(),
            nspheres == scene.spheres@.len(),
            0 <= i <= nspheres,
            pt.wf(),
            nrm.wf(),
            material.wf(),
            in_range(nearest as int),
            sphere_pass_v(*scene, orig@, dir@, i as nat) == Ok::<Probe, RenderError>(
                Probe {
                    nearest: nearest as int,
                    point: pt@,
                    normal: nrm@,
                    material: material@,
                },
            ),
        decreases nspheres - i,
    {
        let sphere = &scene.spheres[i];
        let res: (bool, i64) = ray_sphere_intersect(orig, dir, sphere);
        let intersection: bool = res.0;
        let t: i64 = res.1;
        if intersection && t < nearest {
            nearest = t;
            pt = orig.add(dir.scale(nearest));
            let nv: Vec3 = pt.sub(sphere.center);
            match nv.normalized() {
                Err(e) => {
                    proof {
                        lemma_sphere_pass_err(
                            *scene,
                            orig@,
                            dir@,
                            (i + 1) as nat,
                            scene.spheres@.len(),
                        );
                    }
                    return Err(e);
                },
                Ok(u) => {
                    nrm = u;
                    material = sphere.material;
                },
            }
        }
        i = i + 1;
    }

    if nearest < HIT_CUTOFF {
        Ok(Some(Hit { point: pt, normal: nrm, material }))
    } else {
        Ok(None)
    }
}

/// Model of the lighting loop over the first `k` lights: the summed
/// diffuse and specular intensities from the lights whose shadow ray is
/// not occluded by strictly closer geometry.
pub open spec fn light_sums_v(
    s: Scene,
    point: (int, int, int),
    normal: (int, int, int),
    dir: (int, int, int),
    exp: nat,
    k: nat,
) -> Result<(int, int), RenderError>
    decreases k,
{
    if k == 0 {
        Ok((0int, 0int))
    } else {
        match light_sums_v(s, point, normal, dir, exp, (k - 1) as nat) {
            Err(e) => Err(e),
            Ok(acc) => {
                let light = s.lights@[k - 1]@;
                let lv = sub_v(light, point);
                if norm_v(lv) == 0 {
                    Err(RenderError::DegenerateVector)
                } else {
                    let ldir = normalized_v(lv);
                    match scene_intersect_v(s, point, ldir) {
                        Err(e) => Err(e),
                        Ok(opt) => {
                            let occluded = opt matches Some(sh) && norm_v(sub_v(sh.point, point))
                                < norm_v(sub_v(light, point));
                            if occluded {
                                Ok(acc)
                            } else {
                                Ok(
                                    (
                                        fp_add_s(acc.0, max_s(dot_v(ldir, normal), 0)),
                                        fp_add_s(
                                            acc.1,
                                            fp_pow_s(
                                                max_s(
                                                    dot_v(
                                                        neg_v(reflect_v(neg_v(ldir), normal)),
                                                        dir,
                                                    ),
                                                    0,
                                                ),
                                                exp,
                                            ),
                                        ),
                                    ),
                                )
                            }
                        },
                    }
                }
            },
        }
    }
}

/// Once the lighting fold has failed it stays failed for every longer fold.
pub proof fn lemma_light_sums_err(
    s: Scene,
    point: (int, int, int),
    normal: (int, int, int),
    dir: (int, int, int),
    exp: nat,
    k: nat,
    k2: nat,
)
    requires
        k <= k2,
        light_sums_v(s, point, normal, dir, exp, k) is Err,
    ensures
        light_sums_v(s, point, normal, dir, exp, k2) is Err,
    decreases k2 - k,
{
    if k2 > k {
        lemma_light_sums_err(s, point, normal, dir, exp, k, (k2 - 1) as nat);
    }
}

/// Model of `cast_ray`.  Past the depth bound the background comes back
/// at once; otherwise the nearest hit is shaded: both the reflected and
/// the refracted ray recurse unconditionally (zero albedo weights null
/// unused branches later), the lights are summed, and the four
/// contributions are combined with the material's albedo weights.
pub open spec fn cast_ray_v(
    s: Scene,
    o: (int, int, int),
    d: (int, int, int),
    depth: nat,
) -> Result<(int, int, int), RenderError>
    decreases s.max_depth + 1 - depth,
{
    if depth > s.max_depth {
        Ok(s.background@)
    } else {
        match scene_intersect_v(s, o, d) {
            Err(e) => Err(e),
            Ok(None) => Ok(s.background@),
            Ok(Some(h)) => {
                let reflect_raw = reflect_v(d, h.normal);
                let refract_raw = refract_v(d, h.normal, h.material.refractive_index, SCALE as int);
                if norm_v(reflect_raw) == 0 {
                    Err(RenderError::DegenerateVector)
                } else {
                    let reflect_dir = normalized_v(reflect_raw);
                    if norm_v(refract_raw) == 0 {
                        Err(RenderError::DegenerateVector)
                    } else {
                        let refract_dir = normalized_v(refract_raw);
                        match cast_ray_v(s, h.point, reflect_dir, (depth + 1) as nat) {
                            Err(e) => Err(e),
                            Ok(reflect_color) => match cast_ray_v(
                                s,
                                h.point,
                                refract_dir,
                                (depth + 1) as nat,
                            ) {
                                Err(e) => Err(e),
                                Ok(refract_color) => match light_sums_v(
                                    s,
                                    h.point,
                                    h.normal,
                                    d,
                                    h.material.specular_exponent,
                                    s.lights@.len(),
                                ) {
                                    Err(e) => Err(e),
                                    Ok(sums) => Ok(
                                        add_v(
                                            add_v(
                                                add_v(
                                                    scale_v(
                                                        scale_v(h.material.diffuse_color, sums.0),
                                                        h.material.albedo.0,
                                                    ),
                                                    scale_v(
                                                        (sums.1, sums.1, sums.1),
                                                        h.material.albedo.1,
                                                    ),
                                                ),
                                                scale_v(reflect_color, h.material.albedo.2),
                                            ),
                                            scale_v(refract_color, h.material.albedo.3),
                                        ),
                                    ),
                                },
                            },
                        }
                    }
                }
            },
        }
    }
}

/// The model of an executable color result.
pub open spec fn color_result_v(r: Result<Vec3, RenderError>) -> Result<
    (int, int, int),
    RenderError,
> {
    match r {
        Ok(c) => Ok(c@),
        Err(e) => Err(e),
    }
}

/// Cast a ray into the scene and shade what it hits.
#[verifier::loop_isolation(false)]
#[verifier::rlimit(60)]
pub fn cast_ray(scene: &Scene, orig: &Vec3, dir: &Vec3, depth: u32) -> (r: Result<
    Vec3,
    RenderError,
>)
    requires
        scene.wf(),
        orig.wf(),
        dir.wf(),
    ensures
        color_result_v(r) == cast_ray_v(*scene, orig@, dir@, depth as nat),
        r matches Ok(c) ==> c.wf(),
    decreases scene.max_depth + 1 - depth,
{
    if depth > scene.max_depth {
        return Ok(scene.background);
    }

    let hit_opt: Option<Hit> = match scene_intersect(scene, orig, dir) {
        Err(e) => {
            return Err(e);
        },
        Ok(o) => o,
    };
    let h: Hit = match hit_opt {
        None => {
            return Ok(scene.background);
        },
        Some(h) => h,
    };

    let reflect_dir: Vec3 = match reflect(dir, &h.normal).normalized() {
        Err(e) => {
            return Err(e);
        },
        Ok(u) => u,
    };
    let refract_dir: Vec3 = match refract(
        dir,
        &h.normal,
        h.material.refractive_index,
        SCALE,
    ).normalized() {
        Err(e) => {
            return Err(e);
        },
        Ok(u) => u,
    };
    let reflect_color: Vec3 = match cast_ray(scene, &h.point, &reflect_dir, depth + 1) {
        Err(e) => {
            return Err(e);
        },
        Ok(c) => c,
    };
    let refract_color: Vec3 = match cast_ray(scene, &h.point, &refract_dir, depth + 1) {
        Err(e) => {
            return Err(e);
        },
        Ok(c) => c,
    };

    let mut diffuse_light_intensity: i64 = 0;
    let mut specular_light_intensity: i64 = 0;

    let nlights: usize = scene.lights.len();
    let mut li: usize = 0;
    while li < nlights
        invariant
            0 <= li <= nlights,
            in_range(diffuse_light_intensity as int),
            in_range(specular_light_intensity as int),
            light_sums_v(
                *scene,
                h.point@,
                h.normal@,
                dir@,
                h.material.specular_exponent as nat,
                li as nat,
            ) == Ok::<(int, int), RenderError>(
                (diffuse_light_intensity as int, specular_light_intensity as int),
            ),
        decreases nlights - li,
    {
        let light: Vec3 = scene.lights[li];
        let light_dir: Vec3 = match light.sub(h.point).normalized() {
            Err(e) => {
                proof {
                    lemma_light_sums_err(
                        *scene,
                        h.point@,
                        h.normal@,
                        dir@,
                        h.material.specular_exponent as nat,
                        (li + 1) as nat,
                        scene.lights@.len(),
                    );
                }
                return Err(e);
            },
            Ok(u) => u,
        };

        let shadow: Option<Hit> = match scene_intersect(scene, &h.point, &light_dir) {
            Err(e) => {
                proof {
                    lemma_light_sums_err(
                        *scene,
                        h.point@,
                        h.normal@,
                        dir@,
                        h.material.specular_exponent as nat,
                        (li + 1) as nat,
                        scene.lights@.len(),
                    );
                }
                return Err(e);
            },
            Ok(o) => o,
        };

        let occluded: bool = match shadow {
            Some(sh) => sh.point.sub(h.point).norm() < light.sub(h.point).norm(),
            None => false,
        };

        if !occluded {
            diffuse_light_intensity = fp_add(
                diffuse_light_intensity,
                fp_max(light_dir.dot(h.normal), 0),
            );
            let spec_base: i64 = fp_max(reflect(&light_dir.neg(), &h.normal).neg().dot(*dir), 0);
            specular_light_intensity = fp_add(
                specular_light_intensity,
                fp_pow(spec_base, h.material.specular_exponent),
            );
        }
        li = li + 1;
    }

    let white_specular: Vec3 = Vec3::new(
        specular_light_intensity,
        specular_light_intensity,
        specular_light_intensity,
    );
    Ok(
        h.material.diffuse_color.scale(diffuse_light_intensity).scale(h.material.albedo[0]).add(
            white_specular.scale(h.material.albedo[1]),
        ).add(reflect_color.scale(h.material.albedo[2])).add(
            refract_color.scale(h.material.albedo[3]),
        ),
    )
}

/// Model of the primary ray direction for the pixel at `(px, py)`,
/// before the optional camera rotations: centered on the pixel, with the
/// z component derived from the image height and the field of view.
pub open spec fn primary_dir_v(s: Scene, px: int, py: int) -> (int, int, int) {
    (
        (2 * px + 1 - (s.width as int)) * (HALF_SCALE as int),
        ((s.height as int) - 2 * py - 1) * (HALF_SCALE as int),
        fp_div_s(
            -((s.height as int) * (SCALE as int)),
            fp_mul_s(2 * (SCALE as int), s.tan_half_fov as int),
        ),
    )
}

/// Model of `render_pixel`: the primary direction, the configured
/// rotations in x, y, z order, normalization, and one ray cast from the
/// camera at depth zero.  Opaque: callers reason about a pixel's color
/// through `render_pixel`'s contract, not by re-deriving it.
#[verifier::opaque]
pub open spec fn pixel_v(s: Scene, px: int, py: int) -> Result<(int, int, int), RenderError> {
    let d0 = primary_dir_v(s, px, py);
    let d1 = match s.rot_x {
        Some(r) => rotate_x_v(d0, r.sine as int, r.cosine as int),
        None => d0,
    };
    let d2 = match s.rot_y {
        Some(r) => rotate_y_v(d1, r.sine as int, r.cosine as int),
        None => d1,
    };
    let d3 = match s.rot_z {
        Some(r) => rotate_z_v(d2, r.sine as int, r.cosine as int),
        None => d2,
    };
    if norm_v(d3) == 0 {
        Err(RenderError::DegenerateVector)
    } else {
        cast_ray_v(s, s.camera@, normalized_v(d3), 0)
    }
}

/// A positive tangent keeps the focal-length divisor nonzero: the
/// doubled tangent is at least two fixed-point units.
proof fn lemma_focal_divisor_positive(t: int)
    requires
        0 < t,
    ensures
        fp_mul_s(2 * (SCALE as int), t) > 0,
{
    let s = SCALE as int;
    assert(2 * s * t >= 2 * s) by (nonlinear_arith)
        requires
            t >= 1,
            s == 65536,
    ;
    lemma_div_is_ordered(s, 2 * s * t, s);
    assert(s / s == 1) by {
        lemma_fundamental_div_mod_converse(s, s, 1, 0);
    }
}

/// Compute the color of one pixel: derive the primary ray through the
/// pixel center, apply the configured rotations, normalize, and cast.
pub fn render_pixel(scene: &Scene, px: usize, py: usize) -> (r: Result<Vec3, RenderError>)
    requires
        scene.wf(),
        px < scene.width,
        py < scene.height,
    ensures
        color_result_v(r) == pixel_v(*scene, px as int, py as int),
        r matches Ok(c) ==> c.wf(),
{
    proof {
        reveal(pixel_v);
    }
    let dir_x: i64 = (2 * (px as i64) + 1 - (scene.width as i64)) * HALF_SCALE;
    let dir_y: i64 = ((scene.height as i64) - 2 * (py as i64) - 1) * HALF_SCALE;
    proof {
        lemma_focal_divisor_positive(scene.tan_half_fov as int);
    }
    let focal: i64 = fp_mul(2 * SCALE, scene.tan_half_fov);
    let dir_z: i64 = fp_div(fp_neg((scene.height as i64) * SCALE), focal);

    let d0: Vec3 = Vec3::new(dir_x, dir_y, dir_z);
    let d1: Vec3 = if let Some(r) = &scene.rot_x {
        rotate_at_axis_x(&d0, r.sine, r.cosine)
    } else {
        d0
    };
    let d2: Vec3 = if let Some(r) = &scene.rot_y {
        rotate_at_axis_y(&d1, r.sine, r.cosine)
    } else {
        d1
    };
    let d3: Vec3 = if let Some(r) = &scene.rot_z {
        rotate_at_axis_z(&d2, r.sine, r.cosine)
    } else {
        d2
    };

    match d3.normalized() {
        Err(e) => Err(e),
        Ok(dir) => cast_ray(scene, &scene.camera, &dir, 0),
    }
}

/// Render the whole frame in row-major order.  The contract fixes every
/// pixel of an `Ok` frame to `pixel_v` of its coordinates alone, so the
/// frame does not depend on any evaluation order; an `Err` is the error
/// of the first failing pixel.
#[verifier::loop_isolation(false)]
pub fn render(scene: &Scene) -> (r: Result<Vec<Vec3>, RenderError>)
    requires
        scene.wf(),
    ensures
        r matches Ok(fb) ==> {
            &&& fb@.len() == (scene.width as int) * (scene.height as int)
            &&& forall|p: int|
                0 <= p < fb@.len() ==> pixel_v(
                    *scene,
                    p % (scene.width as int),
                    p / (scene.width as int),
                ) == Ok::<(int, int, int), RenderError>((#[trigger] fb@[p])@)
            &&& forall|p: int| 0 <= p < fb@.len() ==> (#[trigger] fb@[p]).wf()
        },
        r matches Err(e) ==> (exists|p: int|
            0 <= p < (scene.width as int) * (scene.height as int) && (#[trigger] pixel_v(
                *scene,
                p % (scene.width as int),
                p / (scene.width as int),
            )) == Err::<(int, int, int), RenderError>(e) && (forall|q: int|
                0 <= q < p ==> !((#[trigger] pixel_v(
                    *scene,
                    q % (scene.width as int),
                    q / (scene.width as int),
                )) is Err))),
{
    let width: usize = scene.width;
    let height: usize = scene.height;
    proof {
        assert((width as int) * (height as int) <= 0x10000000) by (nonlinear_arith)
            requires
                0 < width <= 16384,
                0 < height <= 16384,
        ;
    }
    let total: usize = width * height;
    let mut framebuffer: Vec<Vec3> = Vec::new();
    let mut pix: usize = 0;
    while pix < total
        invariant
            0 <= pix <= total,
            framebuffer@.len() == pix as int,
            forall|p: int|
                0 <= p < pix ==> pixel_v(*scene, p % (scene.width as int), p / (scene.width as int))
                    == Ok::<(int, int, int), RenderError>((#[trigger] framebuffer@[p])@),
            forall|p: int| 0 <= p < pix ==> (#[trigger] framebuffer@[p]).wf(),
        decreases total - pix,
    {
        let px: usize = pix % width;
        let py: usize = pix / width;
        proof {
            vstd::arithmetic::div_mod::lemma_fundamental_div_mod(pix as int, width as int);
            assert(py < height) by (nonlinear_arith)
                requires
                    pix as int == (width as int) * (py as int) + (px as int),
                    0 <= (px as int) && (px as int) < (width as int),
                    (pix as int) < (width as int) * (height as int),
                    (width as int) > 0,
                    (py as int) >= 0,
            ;
        }
        match render_pixel(scene, px, py) {
            Err(e) => {
                proof {
                    assert forall|q: int| 0 <= q < pix implies !((#[trigger] pixel_v(
                        *scene,
                        q % (scene.width as int),
                        q / (scene.width as int),
                    )) is Err) by {
                        assert(pixel_v(*scene, q % (scene.width as int), q / (scene.width as int))
                            == Ok::<(int, int, int), RenderError>(framebuffer@[q]@));
                    }
                    assert(pixel_v(*scene, (pix as int) % (scene.width as int), (pix as int) / (
                    scene.width as int)) == Err::<(int, int, int), RenderError>(e));
                }
                return Err(e);
            },
            Ok(c) => {
                framebuffer.push(c);
            },
        }
        pix = pix + 1;
    }
    Ok(framebuffer)
}

/// The per-pixel scaling divisor: one, or the largest channel where that
/// exceeds one, so overbright pixels are compressed and others untouched.
pub open spec fn pixel_den_v(p: (int, int, int)) -> int {
    max_s(SCALE as int, max_s(p.0, max_s(p.1, p.2)))
}

/// One output channel: the channel scaled by `255 / den` and truncated
/// into a byte, negative values reading as zero.
pub open spec fn channel_byte_v(c: int, den: int) -> int {
    clamp_s(div_floor_s(c * 255, den), 0, 255)
}

fn channel_byte(c: i64, den: i64) -> (r: u8)
    requires
        in_range(c as int),
        SCALE as int <= den <= FP_BOUND as int,
    ensures
        r as int == channel_byte_v(c as int, den as int),
{
    let q: i128 = div_floor_i128((c as i128) * 255, den as i128);
    if q < 0 {
        0
    } else if q > 255 {
        255
    } else {
        q as u8
    }
}

/// Serialize a frame to bytes, three per pixel in row-major order, each
/// channel scaled per pixel so values above one do not clip.
pub fn frame_to_bytes(framebuffer: &Vec<Vec3>) -> (out: Vec<u8>)
    requires
        forall|p: int| 0 <= p < framebuffer@.len() ==> (#[trigger] framebuffer@[p]).wf(),
    ensures
        out@.len() == 3 * framebuffer@.len(),
        forall|p: int|
            0 <= p < framebuffer@.len() ==> {
                let c = (#[trigger] framebuffer@[p])@;
                &&& out@[3 * p] as int == channel_byte_v(c.0, pixel_den_v(c))
                &&& out@[3 * p + 1] as int == channel_byte_v(c.1, pixel_den_v(c))
                &&& out@[3 * p + 2] as int == channel_byte_v(c.2, pixel_den_v(c))
            },
{
    let mut out: Vec<u8> = Vec::new();
    let mut i: usize = 0;
    while i < framebuffer.len()
        invariant
            0 <= i <= framebuffer@.len(),
            out@.len() == 3 * i as int,
            forall|p: int| 0 <= p < framebuffer@.len() ==> (#[trigger] framebuffer@[p]).wf(),
            forall|p: int|
                0 <= p < i ==> {
                    let c = (#[trigger] framebuffer@[p])@;
                    &&& out@[3 * p] as int == channel_byte_v(c.0, pixel_den_v(c))
                    &&& out@[3 * p + 1] as int == channel_byte_v(c.1, pixel_den_v(c))
                    &&& out@[3 * p + 2] as int == channel_byte_v(c.2, pixel_den_v(c))
                },
        decreases framebuffer@.len() - i,
    {
        let c: Vec3 = framebuffer[i];
        let den: i64 = fp_max(SCALE, fp_max(c.x, fp_max(c.y, c.z)));
        out.push(channel_byte(c.x, den));
        out.push(channel_byte(c.y, den));
        out.push(channel_byte(c.z, den));
        i = i + 1;
    }
    out
}

} // verus!
