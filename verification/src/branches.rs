//! Branches by name.
use crate::arc_text::{arc_less, arc_same, text_less};
use crate::language::LocalName;
use crate::model;
use vstd::prelude::*;

verus! {

/// Values under names, sorted by name.
#[derive(Debug, PartialEq)]
pub struct Branches<T> {
    pub entries: Vec<(LocalName, T)>,
}

/// Whether the entries are sorted by name, each name occurring once.
pub open spec fn sorted<T>(entries: Seq<(model::LocalName, T)>) -> bool {
    forall|i: int, j: int|
        0 <= i < j < entries.len() ==> text_less(
            #[trigger] entries[i].0.string,
            #[trigger] entries[j].0.string,
        )
}

/// The entries with `value` under `name`. An entry under the same name keeps its place and
/// its own copy of the name.
pub open spec fn inserted<T>(
    entries: Seq<(model::LocalName, T)>,
    name: model::LocalName,
    value: T,
) -> Seq<(model::LocalName, T)>
    decreases entries.len(),
{
    if entries.len() == 0 {
        seq![(name, value)]
    } else if entries[0].0.string == name.string {
        seq![(entries[0].0, value)] + entries.drop_first()
    } else if text_less(name.string, entries[0].0.string) {
        seq![(name, value)] + entries
    } else {
        seq![entries[0]] + inserted(entries.drop_first(), name, value)
    }
}

/// The value under the name that is spelled `string`, if there is one.
pub open spec fn found<T>(entries: Seq<(model::LocalName, T)>, string: Seq<char>) -> Option<T>
    decreases entries.len(),
{
    if entries.len() == 0 {
        None
    } else if entries[0].0.string == string {
        Some(entries[0].1)
    } else {
        found(entries.drop_first(), string)
    }
}

/// No text comes before itself.
pub proof fn text_less_irreflexive(a: Seq<char>)
    ensures
        !text_less(a, a),
    decreases a.len(),
{
    if a.len() > 0 {
        text_less_irreflexive(a.drop_first());
    }
}

/// The order of texts is transitive.
pub proof fn text_less_transitive(a: Seq<char>, b: Seq<char>, c: Seq<char>)
    requires
        text_less(a, b),
        text_less(b, c),
    ensures
        text_less(a, c),
    decreases a.len(),
{
    if a.len() > 0 && a[0] == b[0] && b[0] == c[0] {
        text_less_transitive(a.drop_first(), b.drop_first(), c.drop_first());
    }
}

/// Of two different texts, one comes before the other.
pub proof fn text_less_total(a: Seq<char>, b: Seq<char>)
    requires
        a != b,
    ensures
        text_less(a, b) || text_less(b, a),
    decreases a.len(),
{
    if a.len() > 0 && b.len() > 0 {
        if a[0] == b[0] {
            if a.drop_first() == b.drop_first() {
                assert(a =~= seq![a[0]] + a.drop_first());
                assert(b =~= seq![b[0]] + b.drop_first());
                assert(false);
            }
            text_less_total(a.drop_first(), b.drop_first());
        }
    } else {
        assert(a.len() == 0 && b.len() == 0 ==> a =~= b);
    }
}

/// Of two texts that are the same up to a place where they differ, the one with the lesser
/// character there comes first; a text comes before all longer ones that start with it.
pub proof fn first_difference_decides(a: Seq<char>, b: Seq<char>, k: int)
    requires
        0 <= k <= a.len(),
        k <= b.len(),
        forall|i: int| 0 <= i < k ==> a[i] == b[i],
    ensures
        k < a.len() && k < b.len() && a[k] != b[k] ==> (text_less(a, b) <==> a[k] < b[k]),
        k == a.len() ==> (text_less(a, b) <==> a.len() < b.len()),
    decreases k,
{
    if k > 0 {
        let a1 = a.drop_first();
        let b1 = b.drop_first();
        assert forall|i: int| 0 <= i < k - 1 implies a1[i] == b1[i] by {
            assert(a[i + 1] == b[i + 1]);
        }
        first_difference_decides(a1, b1, k - 1);
    }
}

/// What comes before the entries and before `name` comes before the entries with `name`
/// among them.
proof fn inserted_bound<T>(
    entries: Seq<(model::LocalName, T)>,
    name: model::LocalName,
    value: T,
    bound: Seq<char>,
)
    requires
        text_less(bound, name.string),
        forall|i: int| 0 <= i < entries.len() ==> text_less(bound, #[trigger] entries[i].0.string),
    ensures
        forall|i: int|
            0 <= i < inserted(entries, name, value).len() ==> text_less(
                bound,
                (#[trigger] inserted(entries, name, value)[i]).0.string,
            ),
    decreases entries.len(),
{
    if entries.len() > 0 {
        inserted_bound(entries.drop_first(), name, value, bound);
    }
}

/// Sorted entries stay sorted when a value is put under a name.
pub proof fn inserted_sorted<T>(
    entries: Seq<(model::LocalName, T)>,
    name: model::LocalName,
    value: T,
)
    requires
        sorted(entries),
    ensures
        sorted(inserted(entries, name, value)),
    decreases entries.len(),
{
    let after = inserted(entries, name, value);
    if entries.len() > 0 {
        let first = entries[0].0.string;
        let rest = entries.drop_first();
        assert(forall|i: int| 0 <= i < rest.len() ==> rest[i] == #[trigger] entries[i + 1]);
        assert(sorted(rest));
        inserted_sorted(rest, name, value);
        if first == name.string {
        } else if text_less(name.string, first) {
            assert forall|i: int| 0 <= i < entries.len() implies text_less(
                name.string,
                #[trigger] entries[i].0.string,
            ) by {
                if i > 0 {
                    text_less_transitive(name.string, first, entries[i].0.string);
                }
            }
        } else {
            text_less_total(first, name.string);
            assert forall|i: int| 0 <= i < rest.len() implies text_less(
                first,
                #[trigger] rest[i].0.string,
            ) by {
                assert(rest[i] == entries[i + 1]);
            }
            inserted_bound(rest, name, value, first);
        }
    }
}

/// After a value is put under a name, it is what is found there, and what is under the
/// other names is what was there before.
pub proof fn inserted_found<T>(
    entries: Seq<(model::LocalName, T)>,
    name: model::LocalName,
    value: T,
    string: Seq<char>,
)
    ensures
        found(inserted(entries, name, value), string) == if string == name.string {
            Some(value)
        } else {
            found(entries, string)
        },
    decreases entries.len(),
{
    let after = inserted(entries, name, value);
    if entries.len() == 0 {
        assert(after.drop_first() =~= entries);
    } else if entries[0].0.string == name.string {
        assert(after.drop_first() =~= entries.drop_first());
    } else if text_less(name.string, entries[0].0.string) {
        assert(after.drop_first() =~= entries);
    } else {
        assert(after.drop_first() =~= inserted(entries.drop_first(), name, value));
        inserted_found(entries.drop_first(), name, value, string);
    }
}

/// After a value is put under a name, each entry has a name that was there before, or the name
/// itself if no name that was there is spelled like it: a name that was there keeps its place in
/// the source.
pub proof fn inserted_keeps_names<T>(
    entries: Seq<(model::LocalName, T)>,
    name: model::LocalName,
    value: T,
    k: int,
)
    requires
        sorted(entries),
        0 <= k < inserted(entries, name, value).len(),
    ensures
        ({
            let kept = inserted(entries, name, value)[k].0;
            ||| exists|j: int| 0 <= j < entries.len() && (#[trigger] entries[j]).0 == kept
            ||| kept == name && forall|j: int|
                0 <= j < entries.len() ==> (#[trigger] entries[j]).0.string != name.string
        }),
    decreases entries.len(),
{
    let after = inserted(entries, name, value);
    if entries.len() > 0 {
        let first = entries[0].0.string;
        let rest = entries.drop_first();
        assert(forall|i: int| 0 <= i < rest.len() ==> #[trigger] rest[i] == entries[i + 1]);
        if first == name.string {
            if k > 0 {
                assert(after[k] == entries[k]);
            } else {
                assert(after[k].0 == entries[0].0);
            }
        } else if text_less(name.string, first) {
            if k > 0 {
                assert(after[k] == entries[k - 1]);
            } else {
                assert forall|j: int| 0 <= j < entries.len() implies (#[trigger] entries[j]).0.string
                    != name.string by {
                    if j > 0 {
                        text_less_transitive(name.string, first, entries[j].0.string);
                    }
                    text_less_irreflexive(name.string);
                }
            }
        } else if k > 0 {
            assert(sorted(rest));
            assert(after[k] == inserted(rest, name, value)[k - 1]);
            inserted_keeps_names(rest, name, value, k - 1);
            let kept = after[k].0;
            if exists|j: int| 0 <= j < rest.len() && (#[trigger] rest[j]).0 == kept {
                let j = choose|j: int| 0 <= j < rest.len() && (#[trigger] rest[j]).0 == kept;
                assert(entries[j + 1].0 == kept);
            } else {
                assert forall|j: int| 0 <= j < entries.len() implies (#[trigger] entries[j]).0.string
                    != name.string by {
                    if j > 0 {
                        assert(rest[j - 1] == entries[j]);
                    }
                }
            }
        } else {
            assert(after[k] == entries[0]);
        }
    }
}

impl<T: DeepView> DeepView for Branches<T> {
    type V = Seq<(model::LocalName, T::V)>;

    open spec fn deep_view(&self) -> Seq<(model::LocalName, T::V)> {
        self.entries.deep_view()
    }
}

impl<T: DeepView> Branches<T> {
    /// Whether the entries are sorted by name, each name occurring once.
    pub open spec fn wf(self) -> bool {
        sorted(self.deep_view())
    }

    /// No branches.
    pub fn new() -> (r: Branches<T>)
        ensures
            r.wf(),
            r.deep_view() == Seq::<(model::LocalName, T::V)>::empty(),
    {
        let r = Branches { entries: Vec::new() };
        assert(r.deep_view() =~= Seq::<(model::LocalName, T::V)>::empty());
        r
    }

    /// Puts `value` under `name`, in place of what was there.
    pub fn insert(&mut self, name: LocalName, value: T)
        requires
            old(self).wf(),
        ensures
            final(self).wf(),
            final(self).deep_view() == inserted(old(self).deep_view(), name@, value.deep_view()),
    {
        let ghost before = self.deep_view();
        let ghost after = inserted(before, name@, value.deep_view());
        proof {
            inserted_sorted(before, name@, value.deep_view());
            assert(before.skip(0) =~= before);
            assert(before.take(0) + after =~= after);
        }
        let mut i: usize = 0;
        while i < self.entries.len() && arc_less(&self.entries[i].0.string, &name.string)
            invariant
                i <= self.entries@.len(),
                self.deep_view() == before,
                after == before.take(i as int) + inserted(
                    before.skip(i as int),
                    name@,
                    value.deep_view(),
                ),
            decreases self.entries@.len() - i,
        {
            proof {
                let rest = before.skip(i as int);
                let string = rest[0].0.string;
                assert(rest[0] == before[i as int]);
                text_less_irreflexive(string);
                if text_less(name@.string, string) {
                    text_less_transitive(string, name@.string, string);
                }
                assert(rest.drop_first() =~= before.skip(i + 1));
                assert(before.take(i as int) + (seq![rest[0]] + inserted(
                    before.skip(i + 1),
                    name@,
                    value.deep_view(),
                )) =~= before.take(i + 1) + inserted(
                    before.skip(i + 1),
                    name@,
                    value.deep_view(),
                ));
            }
            i = i + 1;
        }
        let ghost rest = before.skip(i as int);
        if i < self.entries.len() && arc_same(&self.entries[i].0.string, &name.string) {
            let (first, _) = self.entries.remove(i);
            self.entries.insert(i, (first, value));
            proof {
                assert(rest[0] == before[i as int]);
                assert(self.deep_view() =~= before.take(i as int) + (seq![
                    (rest[0].0, value.deep_view()),
                ] + rest.drop_first()));
            }
        } else {
            proof {
                if rest.len() > 0 {
                    assert(rest[0] == before[i as int]);
                    text_less_total(rest[0].0.string, name@.string);
                }
            }
            let ghost entry = (name@, value.deep_view());
            self.entries.insert(i, (name, value));
            assert(self.deep_view() =~= before.take(i as int) + (seq![entry] + rest));
        }
    }
}

} // verus!
