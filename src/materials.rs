//! One material per distinct color, created on first use and never evicted.
use crate::color::{color_key, lemma_color_key_injective, Color};
use vstd::prelude::*;

verus! {

/// Names a material; materials are numbered in the order they were created.
#[derive(Clone, Copy, Debug, PartialEq, Eq, Structural)]
pub struct MaterialId(pub usize);

/// The materials after resolving `c`: unchanged if one of that color exists,
/// else with a new one appended.
pub open spec fn resolved(ms: Seq<Color>, c: Color) -> Seq<Color> {
    if ms.contains(c) {
        ms
    } else {
        ms.push(c)
    }
}

/// The materials after resolving each color of `cs` in order.
pub open spec fn resolved_all(ms: Seq<Color>, cs: Seq<Color>) -> Seq<Color>
    decreases cs.len(),
{
    if cs.len() == 0 {
        ms
    } else {
        resolved(resolved_all(ms, cs.drop_last()), cs.last())
    }
}

/// Deduplicates materials by the packed key of their color.
pub struct MaterialCache {
    colors: Vec<Color>,
}

impl MaterialCache {
    /// The color of each material, indexed by `MaterialId`.
    pub closed spec fn materials(&self) -> Seq<Color> {
        self.colors@
    }

    pub open spec fn wf(&self) -> bool {
        self.materials().no_duplicates()
    }

    pub fn new() -> (c: MaterialCache)
        ensures
            c.wf(),
            c.materials() == Seq::<Color>::empty(),
    {
        MaterialCache { colors: Vec::new() }
    }

    pub fn len(&self) -> (n: usize)
        ensures
            n == self.materials().len(),
    {
        self.colors.len()
    }

    /// The color of material `id`, if it exists.
    pub fn color_of(&self, id: MaterialId) -> (c: Option<Color>)
        ensures
            c == if id.0 < self.materials().len() {
                Some(self.materials()[id.0 as int])
            } else {
                None::<Color>
            },
    {
        if id.0 < self.colors.len() {
            Some(self.colors[id.0])
        } else {
            None
        }
    }

    /// The material for `color`: the existing one whose color has the same
    /// key, or a new one recorded before returning. `created` tells which.
    pub fn resource_for(&mut self, color: Color) -> (r: (MaterialId, bool))
        requires
            old(self).wf(),
        ensures
            final(self).wf(),
            final(self).materials() == resolved(old(self).materials(), color),
            r.1 == !old(self).materials().contains(color),
            r.1 ==> r.0.0 == old(self).materials().len(),
            r.0.0 < final(self).materials().len(),
            final(self).materials()[r.0.0 as int] == color,
    {
        let key = color.key();
        let ghost start = self.colors@;
        let mut i: usize = 0;
        while i < self.colors.len()
            invariant
                self.colors@ == start,
                start == old(self).materials(),
                old(self).wf(),
                key == color_key(color),
                i <= self.colors@.len(),
                forall|j: int| 0 <= j < i ==> self.colors@[j] != color,
            decreases self.colors@.len() - i,
        {
            if self.colors[i].key() == key {
                proof {
                    lemma_color_key_injective(self.colors@[i as int], color);
                    assert(start.contains(color));
                }
                return (MaterialId(i), false);
            }
            proof {
                lemma_color_key_injective(self.colors@[i as int], color);
            }
            i += 1;
        }
        let id = MaterialId(self.colors.len());
        let ghost before = self.colors@;
        self.colors.push(color);
        proof {
            assert(!before.contains(color));
            assert forall|a: int, b: int|
                0 <= a < b < self.colors@.len() implies self.colors@[a] != self.colors@[b] by {
                if b < before.len() {
                    assert(before[a] != before[b]);
                } else {
                    assert(before[a] != color);
                }
            }
        }
        (id, true)
    }
}

/// Two materials of a well-formed cache have the same color exactly when
/// they are the same material, so markers of one color share a material and
/// markers of different colors never do.
pub proof fn lemma_one_material_per_color(cache: &MaterialCache, i: int, j: int)
    requires
        cache.wf(),
        0 <= i < cache.materials().len(),
        0 <= j < cache.materials().len(),
    ensures
        cache.materials()[i] == cache.materials()[j] <==> i == j,
{
}

proof fn lemma_resolved_all_holds_colors(ms: Seq<Color>, cs: Seq<Color>)
    requires
        ms.no_duplicates(),
    ensures
        resolved_all(ms, cs).no_duplicates(),
        forall|c: Color| resolved_all(ms, cs).contains(c) <==> (ms.contains(c) || cs.contains(c)),
    decreases cs.len(),
{
    if cs.len() > 0 {
        let prev = resolved_all(ms, cs.drop_last());
        lemma_resolved_all_holds_colors(ms, cs.drop_last());
        let c = cs.last();
        if !prev.contains(c) {
            assert forall|a: int, b: int|
                0 <= a < b < prev.push(c).len() implies prev.push(c)[a] != prev.push(c)[b] by {
                if b < prev.len() {
                    assert(prev[a] != prev[b]);
                } else {
                    assert(prev[a] != c);
                }
            }
        }
        assert forall|x: Color|
            resolved_all(ms, cs).contains(x) <==> (ms.contains(x) || cs.contains(x)) by {
            if cs.contains(x) && x != c {
                let k = choose|k: int| 0 <= k < cs.len() && cs[k] == x;
                assert(cs.drop_last()[k] == x);
            }
            if cs.drop_last().contains(x) {
                let k = choose|k: int| 0 <= k < cs.drop_last().len() && cs.drop_last()[k] == x;
                assert(cs[k] == x);
            }
            if resolved_all(ms, cs).contains(x) && !prev.contains(x) {
                assert(x == c);
                assert(cs[cs.len() - 1] == x);
            }
            if prev.contains(x) {
                let k = choose|k: int| 0 <= k < prev.len() && prev[k] == x;
                assert(resolved_all(ms, cs)[k] == x);
            }
            if x == c && !prev.contains(x) {
                assert(resolved_all(ms, cs)[prev.len() as int] == x);
            }
        }
    }
}

/// Starting from no materials, resolving a sequence of colors creates
/// exactly one material per distinct color seen, however many markers
/// carried each.
pub proof fn lemma_material_count_is_distinct_colors(cs: Seq<Color>)
    ensures
        resolved_all(Seq::empty(), cs).to_set() == cs.to_set(),
        resolved_all(Seq::empty(), cs).len() == cs.to_set().len(),
{
    let ms = resolved_all(Seq::<Color>::empty(), cs);
    lemma_resolved_all_holds_colors(Seq::empty(), cs);
    assert(ms.to_set() =~= cs.to_set());
    ms.unique_seq_to_set();
}

} // verus!
