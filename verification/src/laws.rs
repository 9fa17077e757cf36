//! Properties of the rendering core that hold across functions, stated
//! and proved against the same models the function contracts use.

use crate::fixed::{abs_s, clip_s, fp_add_s, fp_mul_s, fp_sub_s, SCALE};
use crate::primitive::Sphere;
use crate::render::{
    cast_ray_v, incidence_cos_v, pixel_v, ray_sphere_v, reflect_v, scene_intersect_v, INTERSECT_EPS,
};
use crate::scene::Scene;
use crate::vec3::{dot_v, sub_v, RenderError};
use vstd::arithmetic::div_mod::{lemma_fundamental_div_mod, lemma_fundamental_div_mod_converse};
use vstd::prelude::*;

verus! {

/// A ray whose closest approach to the sphere center exceeds the radius
/// reports no hit: whenever the half-chord discriminant of the ray and
/// sphere exceeds the squared radius, the intersection test is false.
pub proof fn lemma_ray_misses_sphere(o: (int, int, int), d: (int, int, int), s: Sphere)
    requires
        ({
            let l = sub_v(s.center@, o);
            let tca = dot_v(l, d);
            fp_sub_s(dot_v(l, l), fp_mul_s(tca, tca)) > fp_mul_s(s.radius as int, s.radius as int)
        }),
    ensures
        !ray_sphere_v(o, d, s).0,
        ray_sphere_v(o, d, s).1 == 0,
{
}

/// A reported sphere hit always lies past the self-intersection epsilon,
/// so in particular its distance is strictly positive.
pub proof fn lemma_sphere_hit_positive(o: (int, int, int), d: (int, int, int), s: Sphere)
    requires
        ray_sphere_v(o, d, s).0,
    ensures
        ray_sphere_v(o, d, s).1 > INTERSECT_EPS,
{
}

/// On an empty scene with no floor, intersection always reports no hit.
pub proof fn lemma_scene_intersect_empty(s: Scene, o: (int, int, int), d: (int, int, int))
    requires
        s.spheres@.len() == 0,
        s.floor is None,
    ensures
        scene_intersect_v(s, o, d) == Ok::<Option<crate::render::Probe>, RenderError>(None),
{
}

/// Past the depth bound, a cast ray returns exactly the configured
/// background color, whatever its origin and direction.
pub proof fn lemma_cast_ray_depth_exhausted(
    s: Scene,
    o: (int, int, int),
    d: (int, int, int),
    depth: nat,
)
    requires
        depth > s.max_depth,
    ensures
        cast_ray_v(s, o, d, depth) == Ok::<(int, int, int), RenderError>(s.background@),
{
}

/// The exception clause of the refraction round trip: when total
/// internal reflection triggers (negative discriminant), the refracted
/// direction is exactly the sentinel `(1, 0, 0)`.
pub proof fn lemma_refract_sentinel(
    i: (int, int, int),
    n: (int, int, int),
    eta_t: int,
    eta_i: int,
)
    requires
        incidence_cos_v(i, n) >= 0,
        ({
            let cosi = incidence_cos_v(i, n);
            let eta = crate::fixed::fp_div_s(eta_i, eta_t);
            fp_add_s(
                SCALE as int,
                fp_mul_s(fp_mul_s(eta, eta), fp_sub_s(fp_mul_s(cosi, cosi), SCALE as int)),
            ) < 0
        }),
    ensures
        crate::render::refract_v(i, n, eta_t, eta_i) == (SCALE as int, 0int, 0int),
{
}

/// Angle of incidence equals angle of reflection along the normal
/// component: for near-unit vectors, the dot product of the reflected
/// direction with the normal is the negation of the incident dot
/// product, up to at most fifteen fixed-point units of rounding error
/// (about 0.00023 of a unit).
///
/// The hypotheses are what unit vectors satisfy with room to spare:
/// components of magnitude at most two, a squared normal length within
/// one unit of one, and an incident dot product of magnitude at most two.
pub proof fn lemma_reflect_incidence(i: (int, int, int), n: (int, int, int))
    requires
        abs_s(i.0) <= 2 * (SCALE as int),
        abs_s(i.1) <= 2 * (SCALE as int),
        abs_s(i.2) <= 2 * (SCALE as int),
        abs_s(n.0) <= 2 * (SCALE as int),
        abs_s(n.1) <= 2 * (SCALE as int),
        abs_s(n.2) <= 2 * (SCALE as int),
        abs_s(dot_v(n, n) - (SCALE as int)) <= 1,
        abs_s(dot_v(i, n)) <= 2 * (SCALE as int),
    ensures
        abs_s(dot_v(reflect_v(i, n), n) + dot_v(i, n)) <= 15,
{
    let s = SCALE as int;

    // The incident dot product: one rounding, no clipping.
    let p = i.0 * n.0 + i.1 * n.1 + i.2 * n.2;
    lemma_fundamental_div_mod(p, s);
    let d = p / s;
    let rho0 = p % s;
    assert(dot_v(i, n) == clip_s(d));
    assert(clip_s(d) == d && -2 * s <= d <= 2 * s);

    // The squared length of the normal, within two units of one.
    let nn = n.0 * n.0 + n.1 * n.1 + n.2 * n.2;
    lemma_fundamental_div_mod(nn, s);
    let dn = nn / s;
    let rhon = nn % s;
    assert(dot_v(n, n) == clip_s(dn));
    assert(clip_s(dn) == dn && s - 1 <= dn <= s + 1);
    assert(s * s - 2 * s <= nn <= s * s + 2 * s) by (nonlinear_arith)
        requires
            nn == s * dn + rhon,
            s - 1 <= dn <= s + 1,
            0 <= rhon < s,
            s == 65536,
    ;

    // Scaling the normal by the fixed-point two is exact.
    assert(n.0 * (2 * s) == (2 * n.0) * s + 0) by (nonlinear_arith);
    assert(n.1 * (2 * s) == (2 * n.1) * s + 0) by (nonlinear_arith);
    assert(n.2 * (2 * s) == (2 * n.2) * s + 0) by (nonlinear_arith);
    lemma_fundamental_div_mod_converse(n.0 * (2 * s), s, 2 * n.0, 0);
    lemma_fundamental_div_mod_converse(n.1 * (2 * s), s, 2 * n.1, 0);
    lemma_fundamental_div_mod_converse(n.2 * (2 * s), s, 2 * n.2, 0);
    assert(fp_mul_s(n.0, 2 * s) == 2 * n.0);
    assert(fp_mul_s(n.1, 2 * s) == 2 * n.1);
    assert(fp_mul_s(n.2, 2 * s) == 2 * n.2);

    // The doubled normal scaled by the dot product: one rounding each.
    lemma_fundamental_div_mod(2 * n.0 * d, s);
    lemma_fundamental_div_mod(2 * n.1 * d, s);
    lemma_fundamental_div_mod(2 * n.2 * d, s);
    let c0 = (2 * n.0 * d) / s;
    let c1 = (2 * n.1 * d) / s;
    let c2 = (2 * n.2 * d) / s;
    let rho1 = (2 * n.0 * d) % s;
    let rho2 = (2 * n.1 * d) % s;
    let rho3 = (2 * n.2 * d) % s;
    assert(-9 * s <= c0 <= 9 * s) by (nonlinear_arith)
        requires
            2 * n.0 * d == s * c0 + rho1,
            0 <= rho1 < s,
            -2 * s <= n.0 <= 2 * s,
            -2 * s <= d <= 2 * s,
            s == 65536,
    ;
    assert(-9 * s <= c1 <= 9 * s) by (nonlinear_arith)
        requires
            2 * n.1 * d == s * c1 + rho2,
            0 <= rho2 < s,
            -2 * s <= n.1 <= 2 * s,
            -2 * s <= d <= 2 * s,
            s == 65536,
    ;
    assert(-9 * s <= c2 <= 9 * s) by (nonlinear_arith)
        requires
            2 * n.2 * d == s * c2 + rho3,
            0 <= rho3 < s,
            -2 * s <= n.2 <= 2 * s,
            -2 * s <= d <= 2 * s,
            s == 65536,
    ;
    assert(fp_mul_s(2 * n.0, d) == c0);
    assert(fp_mul_s(2 * n.1, d) == c1);
    assert(fp_mul_s(2 * n.2, d) == c2);

    // The reflected components: an exact difference each.
    let r0 = i.0 - c0;
    let r1 = i.1 - c1;
    let r2 = i.2 - c2;
    assert(reflect_v(i, n) == (r0, r1, r2));

    // The reflected dot product: one more rounding.
    let q = r0 * n.0 + r1 * n.1 + r2 * n.2;
    assert(-66 * (s * s) <= q <= 66 * (s * s)) by (nonlinear_arith)
        requires
            q == r0 * n.0 + r1 * n.1 + r2 * n.2,
            -11 * s <= r0 <= 11 * s,
            -11 * s <= r1 <= 11 * s,
            -11 * s <= r2 <= 11 * s,
            -2 * s <= n.0 <= 2 * s,
            -2 * s <= n.1 <= 2 * s,
            -2 * s <= n.2 <= 2 * s,
            s == 65536,
    ;
    lemma_fundamental_div_mod(q, s);
    let g = q / s;
    let rho4 = q % s;
    assert(-67 * s <= g <= 67 * s) by (nonlinear_arith)
        requires
            q == s * g + rho4,
            0 <= rho4 < s,
            -66 * (s * s) <= q <= 66 * (s * s),
            s == 65536,
    ;
    assert(dot_v(reflect_v(i, n), n) == clip_s(g));
    assert(clip_s(g) == g);

    // The error identity, built up in small steps: the gap between the
    // two dot products is made of the normal's length defect and the
    // four division remainders.
    assert(s * (c0 * n.0) == 2 * d * (n.0 * n.0) - rho1 * n.0) by (nonlinear_arith)
        requires
            2 * n.0 * d == s * c0 + rho1,
    ;
    assert(s * (c1 * n.1) == 2 * d * (n.1 * n.1) - rho2 * n.1) by (nonlinear_arith)
        requires
            2 * n.1 * d == s * c1 + rho2,
    ;
    assert(s * (c2 * n.2) == 2 * d * (n.2 * n.2) - rho3 * n.2) by (nonlinear_arith)
        requires
            2 * n.2 * d == s * c2 + rho3,
    ;
    let csum = c0 * n.0 + c1 * n.1 + c2 * n.2;
    assert(q == p - csum) by (nonlinear_arith)
        requires
            q == r0 * n.0 + r1 * n.1 + r2 * n.2,
            r0 == i.0 - c0,
            r1 == i.1 - c1,
            r2 == i.2 - c2,
            p == i.0 * n.0 + i.1 * n.1 + i.2 * n.2,
            csum == c0 * n.0 + c1 * n.1 + c2 * n.2,
    ;
    assert(s * csum == 2 * d * nn - (rho1 * n.0 + rho2 * n.1 + rho3 * n.2)) by (nonlinear_arith)
        requires
            csum == c0 * n.0 + c1 * n.1 + c2 * n.2,
            s * (c0 * n.0) == 2 * d * (n.0 * n.0) - rho1 * n.0,
            s * (c1 * n.1) == 2 * d * (n.1 * n.1) - rho2 * n.1,
            s * (c2 * n.2) == 2 * d * (n.2 * n.2) - rho3 * n.2,
            nn == n.0 * n.0 + n.1 * n.1 + n.2 * n.2,
    ;
    assert(s * s * (g + d) == 2 * d * (s * s - nn) + s * (rho0 - rho4) + (rho1 * n.0 + rho2 * n.1
        + rho3 * n.2)) by (nonlinear_arith)
        requires
            q == p - csum,
            s * csum == 2 * d * nn - (rho1 * n.0 + rho2 * n.1 + rho3 * n.2),
            p == s * d + rho0,
            q == s * g + rho4,
    ;

    // Bounding each contribution.
    assert(-8 * (s * s) <= 2 * d * (s * s - nn) <= 8 * (s * s)) by (nonlinear_arith)
        requires
            -2 * s <= d <= 2 * s,
            s * s - 2 * s <= nn <= s * s + 2 * s,
            s == 65536,
    ;
    assert(-6 * (s * s) <= rho1 * n.0 + rho2 * n.1 + rho3 * n.2 <= 6 * (s * s))
        by (nonlinear_arith)
        requires
            0 <= rho1 < s,
            0 <= rho2 < s,
            0 <= rho3 < s,
            -2 * s <= n.0 <= 2 * s,
            -2 * s <= n.1 <= 2 * s,
            -2 * s <= n.2 <= 2 * s,
            s == 65536,
    ;
    assert(-(s * s) <= s * (rho0 - rho4) <= s * s) by (nonlinear_arith)
        requires
            0 <= rho0 < s,
            0 <= rho4 < s,
            s == 65536,
    ;
    assert(-15 <= g + d <= 15) by (nonlinear_arith)
        requires
            s * s * (g + d) == 2 * d * (s * s - nn) + s * (rho0 - rho4) + (rho1 * n.0 + rho2 * n.1
                + rho3 * n.2),
            -8 * (s * s) <= 2 * d * (s * s - nn) <= 8 * (s * s),
            -6 * (s * s) <= rho1 * n.0 + rho2 * n.1 + rho3 * n.2 <= 6 * (s * s),
            -(s * s) <= s * (rho0 - rho4) <= s * s,
            s == 65536,
    ;
}

/// Rendering is deterministic and schedule-independent: any two frames
/// whose every pixel equals the pixel function of its own coordinates
/// are identical, however and in whatever order their pixels were
/// computed.
pub proof fn lemma_render_deterministic(
    s: Scene,
    a: Seq<(int, int, int)>,
    b: Seq<(int, int, int)>,
)
    requires
        a.len() == (s.width as int) * (s.height as int),
        b.len() == a.len(),
        forall|p: int|
            0 <= p < a.len() ==> Ok::<(int, int, int), RenderError>(#[trigger] a[p]) == pixel_v(
                s,
                p % (s.width as int),
                p / (s.width as int),
            ),
        forall|p: int|
            0 <= p < b.len() ==> Ok::<(int, int, int), RenderError>(#[trigger] b[p]) == pixel_v(
                s,
                p % (s.width as int),
                p / (s.width as int),
            ),
    ensures
        a == b,
{
    assert forall|p: int| 0 <= p < a.len() implies a[p] == b[p] by {
        assert(Ok::<(int, int, int), RenderError>(a[p]) == Ok::<(int, int, int), RenderError>(
            b[p],
        ));
    }
    assert(a =~= b);
}

} // verus!
