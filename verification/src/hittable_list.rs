//! A scene: surfaces in a row, hit as one.
use crate::hittable::{limited, reports_nearest, HitRecord, Hittable};
use crate::ray::Ray;
use crate::scalar::{within, Scalar};
use vstd::prelude::*;

verus! {

/// The surfaces of a scene, in the order in which they were added.
pub struct HittableList<H: Hittable> {
    pub objects: Vec<H>,
}

/// Where the range ends once `best` has been found: at its parameter.
pub open spec fn range_end(best: Option<HitRecord>, t_max: Scalar) -> Scalar {
    match best {
        Some(rec) => rec.t,
        None => t_max,
    }
}

/// The hit that survives when the surfaces are asked in turn, each within the
/// range that the hits before it have left.
pub open spec fn closest_of<H: Hittable>(
    objects: Seq<H>,
    r: Ray,
    t_min: Scalar,
    t_max: Scalar,
) -> Option<HitRecord>
    decreases objects.len(),
{
    if objects.len() == 0 {
        None
    } else {
        let before = closest_of(objects.drop_last(), r, t_min, t_max);
        match objects.last().hit_spec(r, t_min, range_end(before, t_max)) {
            Some(rec) => Some(rec),
            None => before,
        }
    }
}

/// Every surface of the row keeps the contract of a surface.
pub open spec fn all_report_nearest<H: Hittable>(objects: Seq<H>) -> bool {
    forall|i: int| 0 <= i < objects.len() ==> reports_nearest(#[trigger] objects[i])
}

/// Whether `hit` is the nearest of the hits of `objects` over the range from
/// `t_min` to `t_max`: it lies in the range, it is the hit of one of them, and
/// it is at least as near as the hit of any of them; or it is none, and none of
/// them is hit.
pub open spec fn is_nearest_of<H: Hittable>(
    hit: Option<HitRecord>,
    objects: Seq<H>,
    r: Ray,
    t_min: Scalar,
    t_max: Scalar,
) -> bool {
    match hit {
        Some(rec) => {
            &&& within(rec.t, t_min, t_max)
            &&& exists|j: int|
                0 <= j < objects.len() && #[trigger] objects[j].hit_spec(r, t_min, t_max) == Some(
                    rec,
                )
            &&& forall|i: int|
                0 <= i < objects.len() ==> (#[trigger] objects[i].hit_spec(r, t_min, t_max)
                    matches Some(other) ==> rec.t.le_spec(other.t))
        },
        None => forall|i: int|
            0 <= i < objects.len() ==> #[trigger] objects[i].hit_spec(r, t_min, t_max) is None,
    }
}

/// Whether two hits are equally near: both are none, or their parameters are
/// the same number.
pub open spec fn equally_near(first: Option<HitRecord>, second: Option<HitRecord>) -> bool {
    match (first, second) {
        (Some(a), Some(b)) => a.t.equals(b.t),
        (None, None) => true,
        _ => false,
    }
}

/// Among surfaces that keep the contract of a surface, the hit that survives
/// lies in the range asked for, is the hit of one of them over that whole
/// range, and is at least as near as the hit of any of them. None survives
/// only where none of them is hit.
pub proof fn lemma_closest_is_nearest<H: Hittable>(
    objects: Seq<H>,
    r: Ray,
    t_min: Scalar,
    t_max: Scalar,
)
    requires
        all_report_nearest(objects),
    ensures
        is_nearest_of(closest_of(objects, r, t_min, t_max), objects, r, t_min, t_max),
    decreases objects.len(),
{
    if objects.len() > 0 {
        let init = objects.drop_last();
        let last = objects.last();
        let n = objects.len() - 1;
        assert(forall|i: int| 0 <= i < n ==> init[i] == objects[i]);
        assert(all_report_nearest(init));
        assert(reports_nearest(objects[n]));
        lemma_closest_is_nearest(init, r, t_min, t_max);
        let before = closest_of(init, r, t_min, t_max);
        let end = range_end(before, t_max);
        let full = last.hit_spec(r, t_min, t_max);
        let here = last.hit_spec(r, t_min, end);
        assert(before is Some ==> here == limited(full, end));
        assert(before is None ==> here == full);
        match here {
            Some(rec) => {
                assert(objects[n].hit_spec(r, t_min, t_max) == Some(rec));
                assert forall|i: int| 0 <= i < objects.len() implies (
                #[trigger] objects[i].hit_spec(r, t_min, t_max) matches Some(other)
                    ==> rec.t.le_spec(other.t)) by {
                    if i < n {
                        assert(init[i].hit_spec(r, t_min, t_max) == objects[i].hit_spec(
                            r,
                            t_min,
                            t_max,
                        ));
                    }
                }
            },
            None => {
                match before {
                    Some(best) => {
                        let j = choose|j: int|
                            0 <= j < init.len() && #[trigger] init[j].hit_spec(r, t_min, t_max)
                                == Some(best);
                        assert(objects[j].hit_spec(r, t_min, t_max) == Some(best));
                        assert forall|i: int| 0 <= i < objects.len() implies (
                        #[trigger] objects[i].hit_spec(r, t_min, t_max) matches Some(other)
                            ==> best.t.le_spec(other.t)) by {
                            if i < n {
                                assert(init[i].hit_spec(r, t_min, t_max) == objects[i].hit_spec(
                                    r,
                                    t_min,
                                    t_max,
                                ));
                            }
                        }
                    },
                    None => {
                        assert forall|i: int| 0 <= i < objects.len() implies (
                        #[trigger] objects[i].hit_spec(r, t_min, t_max)) is None by {
                            if i < n {
                                assert(init[i].hit_spec(r, t_min, t_max) == objects[i].hit_spec(
                                    r,
                                    t_min,
                                    t_max,
                                ));
                            }
                        }
                    },
                }
            },
        }
    }
}

/// A row of surfaces that keep the contract of a surface keeps it too: over a
/// shorter range the same hit survives, or none.
pub proof fn lemma_closest_keeps_contract<H: Hittable>(
    objects: Seq<H>,
    r: Ray,
    t_min: Scalar,
    t_max: Scalar,
    t_end: Scalar,
)
    requires
        all_report_nearest(objects),
        t_end.le_spec(t_max),
    ensures
        closest_of(objects, r, t_min, t_end) == limited(
            closest_of(objects, r, t_min, t_max),
            t_end,
        ),
    decreases objects.len(),
{
    if objects.len() > 0 {
        let init = objects.drop_last();
        let last = objects.last();
        let n = objects.len() - 1;
        assert(forall|i: int| 0 <= i < n ==> init[i] == objects[i]);
        assert(all_report_nearest(init));
        assert(reports_nearest(objects[n]));
        lemma_closest_keeps_contract(init, r, t_min, t_max, t_end);
        lemma_closest_is_nearest(init, r, t_min, t_max);
        let wide = closest_of(init, r, t_min, t_max);
        let narrow = closest_of(init, r, t_min, t_end);
        let full = last.hit_spec(r, t_min, t_max);
        match wide {
            None => {
                assert(last.hit_spec(r, t_min, t_end) == limited(full, t_end));
            },
            Some(best) => {
                let at_best = last.hit_spec(r, t_min, best.t);
                assert(at_best == limited(full, best.t));
                if !best.t.le_spec(t_end) {
                    assert(t_end.le_spec(best.t));
                    assert(last.hit_spec(r, t_min, t_end) == limited(at_best, t_end));
                }
            },
        }
    }
}

/// The order of the surfaces does not matter to how near the surviving hit
/// is: two rows of the same surfaces are hit or missed together, and at the
/// same parameter.
pub proof fn lemma_closest_ignores_order<H: Hittable>(
    first: Seq<H>,
    second: Seq<H>,
    r: Ray,
    t_min: Scalar,
    t_max: Scalar,
)
    requires
        all_report_nearest(first),
        first.to_multiset() == second.to_multiset(),
    ensures
        equally_near(closest_of(first, r, t_min, t_max), closest_of(second, r, t_min, t_max)),
{
    first.to_multiset_ensures();
    second.to_multiset_ensures();
    assert forall|j: int| 0 <= j < second.len() implies first.contains(#[trigger] second[j]) by {
        assert(second.contains(second[j]));
        assert(second.to_multiset().count(second[j]) > 0);
        assert(first.to_multiset().count(second[j]) > 0);
    }
    assert forall|i: int| 0 <= i < first.len() implies second.contains(#[trigger] first[i]) by {
        assert(first.contains(first[i]));
        assert(first.to_multiset().count(first[i]) > 0);
        assert(second.to_multiset().count(first[i]) > 0);
    }
    assert(all_report_nearest(second)) by {
        assert forall|j: int| 0 <= j < second.len() implies reports_nearest(
            #[trigger] second[j],
        ) by {
            let i = choose|i: int| 0 <= i < first.len() && first[i] == second[j];
            assert(reports_nearest(first[i]));
        }
    }
    lemma_closest_is_nearest(first, r, t_min, t_max);
    lemma_closest_is_nearest(second, r, t_min, t_max);
    let a = closest_of(first, r, t_min, t_max);
    let b = closest_of(second, r, t_min, t_max);
    if let Some(ra) = a {
        let i = choose|i: int|
            0 <= i < first.len() && #[trigger] first[i].hit_spec(r, t_min, t_max) == Some(ra);
        assert(second.contains(first[i]));
        let j = choose|j: int| 0 <= j < second.len() && second[j] == first[i];
        assert(second[j].hit_spec(r, t_min, t_max) == Some(ra));
    }
    if let Some(rb) = b {
        let j = choose|j: int|
            0 <= j < second.len() && #[trigger] second[j].hit_spec(r, t_min, t_max) == Some(rb);
        assert(first.contains(second[j]));
        let i = choose|i: int| 0 <= i < first.len() && first[i] == second[j];
        assert(first[i].hit_spec(r, t_min, t_max) == Some(rb));
    }
}

/// A scene of surfaces that keep the contract of a surface is such a surface
/// itself, and can stand in another scene.
pub proof fn lemma_scene_reports_nearest<H: Hittable>(scene: HittableList<H>)
    requires
        all_report_nearest(scene.objects@),
    ensures
        reports_nearest(scene),
{
    assert forall|r: Ray, t_min: Scalar, t_max: Scalar|
        {
            &&& (#[trigger] scene.hit_spec(r, t_min, t_max) matches Some(rec) ==> within(
                rec.t,
                t_min,
                t_max,
            ))
            &&& forall|t_end: Scalar|
                t_end.le_spec(t_max) ==> #[trigger] scene.hit_spec(r, t_min, t_end) == limited(
                    scene.hit_spec(r, t_min, t_max),
                    t_end,
                )
        } by {
        lemma_closest_is_nearest(scene.objects@, r, t_min, t_max);
        assert forall|t_end: Scalar| t_end.le_spec(t_max) implies #[trigger] scene.hit_spec(
            r,
            t_min,
            t_end,
        ) == limited(scene.hit_spec(r, t_min, t_max), t_end) by {
            lemma_closest_keeps_contract(scene.objects@, r, t_min, t_max, t_end);
        }
    }
}

impl<H: Hittable> HittableList<H> {
    /// The empty scene.
    pub fn new() -> (list: Self)
        ensures
            list.objects@ == Seq::<H>::empty(),
    {
        HittableList { objects: Vec::new() }
    }

    /// The scene that holds `object` alone.
    pub fn from(object: H) -> (list: Self)
        ensures
            list.objects@ == seq![object],
    {
        let mut objects: Vec<H> = Vec::new();
        objects.push(object);
        assert(objects@ =~= seq![object]);
        HittableList { objects }
    }

    /// Takes every surface out of the scene.
    pub fn clear(&mut self)
        ensures
            final(self).objects@ == Seq::<H>::empty(),
    {
        self.objects.clear();
    }

    /// Puts `object` behind the others.
    pub fn add(&mut self, object: H)
        ensures
            final(self).objects@ == old(self).objects@.push(object),
    {
        self.objects.push(object);
    }
}

impl<H: Hittable> Hittable for HittableList<H> {
    open spec fn hit_spec(&self, r: Ray, t_min: Scalar, t_max: Scalar) -> Option<HitRecord> {
        closest_of(self.objects@, r, t_min, t_max)
    }

    /// Asks every surface in turn, each only for a hit that is no farther than
    /// the best so far, and keeps the last answer. Where every surface keeps
    /// the contract of a surface, that is the nearest hit of the scene: the hit
    /// of one of its surfaces, and at least as near as the hit of any of them.
    fn hit(&self, r: &Ray, t_min: Scalar, t_max: Scalar) -> (res: Option<HitRecord>)
        ensures
            self.objects@.len() == 0 ==> res is None,
            all_report_nearest(self.objects@) ==> is_nearest_of(
                res,
                self.objects@,
                *r,
                t_min,
                t_max,
            ),
    {
        let mut best: Option<HitRecord> = None;
        let mut closest_so_far = t_max;
        let mut i: usize = 0;
        while i < self.objects.len()
            invariant
                0 <= i <= self.objects@.len(),
                best == closest_of(self.objects@.take(i as int), *r, t_min, t_max),
                closest_so_far == range_end(best, t_max),
                best matches Some(rec) ==> within(rec.t, t_min, t_max),
            decreases self.objects@.len() - i,
        {
            proof {
                let upto = self.objects@.take(i as int + 1);
                assert(upto.drop_last() =~= self.objects@.take(i as int));
                assert(upto.last() == self.objects@[i as int]);
            }
            if let Some(temp_rec) = self.objects[i].hit(r, t_min, closest_so_far) {
                closest_so_far = temp_rec.t();
                best = Some(temp_rec);
            }
            i += 1;
        }
        proof {
            assert(self.objects@.take(i as int) =~= self.objects@);
            if all_report_nearest(self.objects@) {
                lemma_closest_is_nearest(self.objects@, *r, t_min, t_max);
            }
        }
        best
    }
}

} // verus!
