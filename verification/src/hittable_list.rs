//! A collection of objects that is queried as one.
use crate::hittable::{HitRecord, Hittable};
use crate::interval::Interval;
use crate::ray::Ray;
use vstd::prelude::*;

verus! {

/// Objects in the order in which they were added.
pub struct HittableList<T: Hittable> {
    pub objects: Vec<T>,
}

/// The record that is held after a run of answers: the last hit among them,
/// or a miss.
pub open spec fn nearest(answers: Seq<HitRecord>) -> HitRecord
    decreases answers.len(),
{
    if answers.len() == 0 {
        HitRecord::spec_miss()
    } else if answers.last().is_hit {
        answers.last()
    } else {
        nearest(answers.drop_last())
    }
}

/// The range under which the next object is queried after a run of answers:
/// `ray_t`, with its upper bound lowered to the parameter of the hit held.
pub open spec fn window(ray_t: Interval, answers: Seq<HitRecord>) -> Interval {
    Interval {
        min: ray_t.min,
        max: if nearest(answers).is_hit {
            nearest(answers).t
        } else {
            ray_t.max
        },
    }
}

/// Whether each hit among the answers lies strictly inside the range that
/// the answers before it left.
pub open spec fn admissible(ray_t: Interval, answers: Seq<HitRecord>) -> bool {
    forall|i: int|
        0 <= i < answers.len() && (#[trigger] answers[i]).is_hit ==> window(
            ray_t,
            answers.take(i),
        ).spec_surrounds(answers[i].t)
}

/// Whether `answers` are what the objects gave for the ray `r`, asked one
/// after the other, each under the range that the answers before it left.
pub open spec fn asked<T: Hittable>(
    objects: Seq<T>,
    r: Ray,
    ray_t: Interval,
    answers: Seq<HitRecord>,
) -> bool {
    answers.len() == objects.len() && forall|i: int|
        0 <= i < answers.len() ==> call_ensures(
            T::hit,
            (&objects[i], &r, &window(ray_t, answers.take(i))),
            #[trigger] answers[i],
        )
}

/// Whether a record is the nearest of the answers: a hit exactly if one of
/// them is, then with a parameter that none of their hits undercuts, and
/// otherwise the record of a miss.
pub open spec fn is_nearest_of(rec: HitRecord, answers: Seq<HitRecord>) -> bool {
    &&& rec.is_hit <==> exists|i: int| 0 <= i < answers.len() && (#[trigger] answers[i]).is_hit
    &&& !rec.is_hit ==> rec == HitRecord::spec_miss()
    &&& forall|i: int|
        0 <= i < answers.len() && (#[trigger] answers[i]).is_hit ==> rec.t.at_most(answers[i].t)
}

/// Whether a record reports a hit strictly inside a range.
pub open spec fn hits_inside(range: Interval, rec: HitRecord) -> bool {
    rec.is_hit && range.spec_surrounds(rec.t)
}

/// Whether `answers` are what objects answer that each know one
/// intersection with the ray, `candidates[i]` for object `i`, and report it
/// exactly when it lies strictly inside the range under which they are asked.
/// A sphere is such an object: lowering the upper bound of the range never
/// makes it report another point, only none.
pub open spec fn answers_from(
    ray_t: Interval,
    candidates: Seq<HitRecord>,
    answers: Seq<HitRecord>,
) -> bool {
    answers.len() == candidates.len() && forall|i: int|
        0 <= i < answers.len() ==> if hits_inside(
            window(ray_t, answers.take(i)),
            #[trigger] candidates[i],
        ) {
            answers[i] == candidates[i]
        } else {
            !answers[i].is_hit
        }
}

impl<T: Hittable> HittableList<T> {
    pub fn new() -> (r: Self)
        ensures
            r.objects@.len() == 0,
    {
        HittableList { objects: Vec::new() }
    }

    pub fn add_obj(&mut self, obj: T)
        ensures
            final(self).objects@ == old(self).objects@.push(obj),
    {
        self.objects.push(obj);
    }

    pub fn clear(&mut self)
        ensures
            final(self).objects@.len() == 0,
    {
        self.objects.clear();
    }
}

impl<T: Hittable> Hittable for HittableList<T> {
    /// Asks every object in turn with the ray `r`, each under `ray_t` with
    /// its upper bound lowered to the nearest hit so far, and reports the
    /// last hit found, which is the nearest of all; a miss if no object
    /// answers with a hit. The objects decide what they answer; the report
    /// is the fold of their answers.
    fn hit(&self, r: &Ray, ray_t: &Interval) -> (rec: HitRecord)
        ensures
            exists|answers: Seq<HitRecord>|
                asked(self.objects@, *r, *ray_t, answers) && admissible(*ray_t, answers) && rec
                    == #[trigger] nearest(answers) && is_nearest_of(rec, answers),
            self.objects@.len() == 0 ==> rec == HitRecord::spec_miss(),
    {
        let mut best = HitRecord::default();
        let mut closest_so_far = ray_t.max;
        let ghost mut answers: Seq<HitRecord> = Seq::empty();
        let mut i: usize = 0;
        while i < self.objects.len()
            invariant
                i <= self.objects.len(),
                answers.len() == i,
                asked(self.objects@.take(i as int), *r, *ray_t, answers),
                admissible(*ray_t, answers),
                best == nearest(answers),
                closest_so_far == window(*ray_t, answers).max,
            decreases self.objects.len() - i,
        {
            let range = Interval::new(ray_t.min, closest_so_far);
            let new_rec = self.objects[i].hit(r, &range);
            proof {
                lemma_admissible_push(*ray_t, answers, new_rec);
                let longer = answers.push(new_rec);
                assert(longer.drop_last() =~= answers);
                assert forall|k: int| 0 <= k < longer.len() implies call_ensures(
                    T::hit,
                    (&self.objects@.take(i + 1)[k], r, &window(*ray_t, longer.take(k))),
                    #[trigger] longer[k],
                ) by {
                    if k < i {
                        assert(longer.take(k) =~= answers.take(k));
                        assert(self.objects@.take(i as int)[k] == self.objects@[k]);
                        assert(longer[k] == answers[k]);
                    } else {
                        assert(longer.take(k) =~= answers);
                        assert(range == window(*ray_t, answers));
                    }
                }
                answers = longer;
            }
            if new_rec.is_hit {
                closest_so_far = new_rec.t;
            }
            best = best.closer(new_rec);
            i += 1;
        }
        proof {
            lemma_nearest_is_minimal(*ray_t, answers);
            assert(self.objects@.take(i as int) =~= self.objects@);
        }
        best
    }
}

/// Admissible answers stay admissible with one more answer that is a miss or
/// lies inside the range they left.
pub proof fn lemma_admissible_push(ray_t: Interval, answers: Seq<HitRecord>, next: HitRecord)
    requires
        admissible(ray_t, answers),
        next.is_hit ==> window(ray_t, answers).spec_surrounds(next.t),
    ensures
        admissible(ray_t, answers.push(next)),
{
    let longer = answers.push(next);
    assert forall|i: int| 0 <= i < longer.len() && (#[trigger] longer[i]).is_hit implies window(
        ray_t,
        longer.take(i),
    ).spec_surrounds(longer[i].t) by {
        if i < answers.len() {
            assert(longer.take(i) =~= answers.take(i));
            assert(longer[i] == answers[i]);
        } else {
            assert(longer.take(i) =~= answers);
        }
    }
}

/// Nearest-surface visibility. Of admissible answers the record held in the
/// end is a hit exactly if some answer is one; its parameter lies strictly
/// inside the range that was asked for; and no hit among the answers has a
/// smaller parameter.
pub proof fn lemma_nearest_is_minimal(ray_t: Interval, answers: Seq<HitRecord>)
    requires
        admissible(ray_t, answers),
    ensures
        nearest(answers).is_hit <==> exists|i: int|
            0 <= i < answers.len() && (#[trigger] answers[i]).is_hit,
        nearest(answers).is_hit ==> ray_t.spec_surrounds(nearest(answers).t),
        !nearest(answers).is_hit ==> nearest(answers) == HitRecord::spec_miss(),
        forall|i: int|
            0 <= i < answers.len() && (#[trigger] answers[i]).is_hit ==> nearest(answers).t.at_most(
                answers[i].t,
            ),
    decreases answers.len(),
{
    if answers.len() > 0 {
        let shorter = answers.drop_last();
        let last = answers.len() - 1;
        assert(shorter =~= answers.take(last));
        assert forall|i: int| 0 <= i < shorter.len() && (#[trigger] shorter[i]).is_hit implies window(
            ray_t,
            shorter.take(i),
        ).spec_surrounds(shorter[i].t) by {
            assert(shorter.take(i) =~= answers.take(i));
            assert(shorter[i] == answers[i]);
        }
        lemma_nearest_is_minimal(ray_t, shorter);
        if answers.last().is_hit {
            assert(answers[last].is_hit);
            assert(window(ray_t, shorter).spec_surrounds(answers[last].t));
            assert forall|i: int| 0 <= i < answers.len() && (#[trigger] answers[i]).is_hit implies nearest(
                answers,
            ).t.at_most(answers[i].t) by {
                if i < last {
                    assert(shorter[i] == answers[i]);
                    assert(nearest(shorter).is_hit);
                    assert(nearest(shorter).t.at_most(shorter[i].t));
                }
            }
        } else {
            assert forall|i: int| 0 <= i < answers.len() && (#[trigger] answers[i]).is_hit implies nearest(
                answers,
            ).t.at_most(answers[i].t) by {
                assert(i < last);
                assert(shorter[i] == answers[i]);
            }
            if nearest(answers).is_hit {
                let k = choose|k: int| 0 <= k < shorter.len() && (#[trigger] shorter[k]).is_hit;
                assert(answers[k].is_hit);
            }
            if exists|i: int| 0 <= i < answers.len() && (#[trigger] answers[i]).is_hit {
                let k = choose|k: int| 0 <= k < answers.len() && (#[trigger] answers[k]).is_hit;
                assert(k < last);
                assert(shorter[k].is_hit);
            }
        }
    }
}

/// Of objects that each know one intersection, the list reports one that
/// lies inside the range and has the smallest parameter of all that do; it
/// reports a miss exactly if none lies inside the range.
pub proof fn lemma_nearest_of_candidates(
    ray_t: Interval,
    candidates: Seq<HitRecord>,
    answers: Seq<HitRecord>,
)
    requires
        answers_from(ray_t, candidates, answers),
    ensures
        admissible(ray_t, answers),
        nearest(answers).is_hit ==> exists|j: int|
            0 <= j < candidates.len() && nearest(answers) == #[trigger] candidates[j]
                && hits_inside(ray_t, candidates[j]),
        forall|i: int|
            0 <= i < candidates.len() && hits_inside(ray_t, #[trigger] candidates[i]) ==> nearest(
                answers,
            ).is_hit && nearest(answers).t.at_most(candidates[i].t),
    decreases answers.len(),
{
    if answers.len() == 0 {
    } else {
        let last = answers.len() - 1;
        let fewer = candidates.drop_last();
        let shorter = answers.drop_last();
        assert(shorter =~= answers.take(last));
        assert forall|i: int| 0 <= i < shorter.len() implies if hits_inside(
            window(ray_t, shorter.take(i)),
            #[trigger] fewer[i],
        ) {
            shorter[i] == fewer[i]
        } else {
            !shorter[i].is_hit
        } by {
            assert(shorter.take(i) =~= answers.take(i));
            assert(fewer[i] == candidates[i]);
            assert(shorter[i] == answers[i]);
        }
        lemma_nearest_of_candidates(ray_t, fewer, shorter);
        let held = nearest(shorter);
        let range = window(ray_t, shorter);
        let c = candidates[last];
        if held.is_hit {
            let j = choose|j: int|
                0 <= j < fewer.len() && held == #[trigger] fewer[j] && hits_inside(ray_t, fewer[j]);
            assert(held == candidates[j]);
            assert(ray_t.spec_surrounds(held.t));
        }
        lemma_admissible_push(ray_t, shorter, answers[last]);
        assert(shorter.push(answers[last]) =~= answers);
        if hits_inside(range, c) {
            assert(answers[last] == c);
            assert(nearest(answers) == c);
            assert(hits_inside(ray_t, candidates[last]));
            assert forall|i: int|
                0 <= i < candidates.len() && hits_inside(
                    ray_t,
                    #[trigger] candidates[i],
                ) implies nearest(answers).is_hit && nearest(answers).t.at_most(
                candidates[i].t,
            ) by {
                if i < last {
                    assert(fewer[i] == candidates[i]);
                    assert(held.t.at_most(fewer[i].t));
                }
            }
        } else {
            assert(!answers[last].is_hit);
            assert(nearest(answers) == held);
            assert forall|i: int|
                0 <= i < candidates.len() && hits_inside(
                    ray_t,
                    #[trigger] candidates[i],
                ) implies nearest(answers).is_hit && nearest(answers).t.at_most(
                candidates[i].t,
            ) by {
                if i < last {
                    assert(fewer[i] == candidates[i]);
                }
            }
        }
    }
}

/// Insertion order does not matter. Two lists of objects that each know one
/// intersection, with the same intersections between them in whatever order,
/// report a hit for the same rays and at the same distance.
pub proof fn lemma_order_does_not_matter(
    ray_t: Interval,
    candidates: Seq<HitRecord>,
    answers: Seq<HitRecord>,
    reordered: Seq<HitRecord>,
    other_answers: Seq<HitRecord>,
)
    requires
        answers_from(ray_t, candidates, answers),
        answers_from(ray_t, reordered, other_answers),
        forall|x: HitRecord| candidates.contains(x) <==> reordered.contains(x),
    ensures
        nearest(answers).is_hit == nearest(other_answers).is_hit,
        nearest(answers).is_hit ==> nearest(answers).t.rank() == nearest(other_answers).t.rank(),
{
    lemma_nearest_of_candidates(ray_t, candidates, answers);
    lemma_nearest_of_candidates(ray_t, reordered, other_answers);
    if nearest(answers).is_hit {
        let j = choose|j: int|
            0 <= j < candidates.len() && nearest(answers) == #[trigger] candidates[j]
                && hits_inside(ray_t, candidates[j]);
        assert(candidates.contains(candidates[j]));
        assert(reordered.contains(candidates[j]));
        let k = choose|k: int| 0 <= k < reordered.len() && reordered[k] == candidates[j];
        assert(hits_inside(ray_t, reordered[k]));
    }
    if nearest(other_answers).is_hit {
        let j = choose|j: int|
            0 <= j < reordered.len() && nearest(other_answers) == #[trigger] reordered[j]
                && hits_inside(ray_t, reordered[j]);
        assert(reordered.contains(reordered[j]));
        assert(candidates.contains(reordered[j]));
        let k = choose|k: int| 0 <= k < candidates.len() && candidates[k] == reordered[j];
        assert(hits_inside(ray_t, candidates[k]));
    }
}

} // verus!
