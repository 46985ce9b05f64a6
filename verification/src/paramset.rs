//! Named parameters of the scene description, as far as samplers read them.

use vstd::prelude::*;

verus! {

/// A named parameter with its values.
pub struct ParamSetItem<T> {
    pub name: String,
    pub values: Vec<T>,
}

/// The parameters given for one object of the scene.
pub struct ParamSet {
    pub bools: Vec<ParamSetItem<bool>>,
    pub ints: Vec<ParamSetItem<i32>>,
}

/// The item has the name `name` and exactly one value.
pub open spec fn spec_matches<T>(item: ParamSetItem<T>, name: Seq<char>) -> bool {
    item.name@ == name && item.values@.len() == 1
}

/// The value of the first item that has the name `name` and exactly one
/// value; `default` where there is none.
pub open spec fn spec_find_one<T>(items: Seq<ParamSetItem<T>>, name: Seq<char>, default: T) -> T
    decreases items.len(),
{
    if items.len() == 0 {
        default
    } else if spec_matches(items[0], name) {
        items[0].values@[0]
    } else {
        spec_find_one(items.drop_first(), name, default)
    }
}

fn find_one<T: Copy>(items: &Vec<ParamSetItem<T>>, name: &str, default: T) -> (r: T)
    ensures
        r == spec_find_one(items@, name@, default),
{
    let key: String = name.to_owned();
    let mut i: usize = 0;
    assert(items@.skip(0) =~= items@);
    while i < items.len()
        invariant
            i <= items@.len(),
            key@ == name@,
            spec_find_one(items@, name@, default) == spec_find_one(
                items@.skip(i as int),
                name@,
                default,
            ),
        decreases items@.len() - i,
    {
        if items[i].name == key && items[i].values.len() == 1 {
            return items[i].values[0];
        }
        assert(items@.skip(i as int).drop_first() =~= items@.skip(i + 1));
        i += 1;
    }
    default
}

/// Where no item has the name with one value, the default is found.
pub proof fn law_find_one_default<T>(items: Seq<ParamSetItem<T>>, name: Seq<char>, default: T)
    requires
        forall|k: int| 0 <= k < items.len() ==> !spec_matches(#[trigger] items[k], name),
    ensures
        spec_find_one(items, name, default) == default,
    decreases items.len(),
{
    if items.len() > 0 {
        assert(!spec_matches(items[0], name));
        assert forall|k: int| 0 <= k < items.drop_first().len() implies !spec_matches(
            #[trigger] items.drop_first()[k],
            name,
        ) by {
            assert(items.drop_first()[k] == items[k + 1]);
        }
        law_find_one_default(items.drop_first(), name, default);
    }
}

/// Where item `first` is the first that has the name with one value, its value is found.
pub proof fn law_find_one_first<T>(
    items: Seq<ParamSetItem<T>>,
    name: Seq<char>,
    default: T,
    first: int,
)
    requires
        0 <= first < items.len(),
        spec_matches(items[first], name),
        forall|k: int| 0 <= k < first ==> !spec_matches(#[trigger] items[k], name),
    ensures
        spec_find_one(items, name, default) == items[first].values@[0],
    decreases first,
{
    if first > 0 {
        assert(!spec_matches(items[0], name));
        assert forall|k: int| 0 <= k < first - 1 implies !spec_matches(
            #[trigger] items.drop_first()[k],
            name,
        ) by {
            assert(items.drop_first()[k] == items[k + 1]);
        }
        assert(items.drop_first()[first - 1] == items[first]);
        law_find_one_first(items.drop_first(), name, default, first - 1);
    }
}

impl ParamSet {
    /// What `find_one_bool` finds under `name`.
    pub open spec fn spec_find_one_bool(&self, name: Seq<char>, default: bool) -> bool {
        spec_find_one(self.bools@, name, default)
    }

    /// What `find_one_int` finds under `name`.
    pub open spec fn spec_find_one_int(&self, name: Seq<char>, default: i32) -> i32 {
        spec_find_one(self.ints@, name, default)
    }

    /// A parameter set without parameters: every lookup gives its default.
    pub fn new() -> (params: ParamSet)
        ensures
            params.bools@.len() == 0,
            params.ints@.len() == 0,
    {
        ParamSet { bools: Vec::new(), ints: Vec::new() }
    }

    /// Adds the parameter `name` with the single value `value`, after those that are there.
    pub fn add_bool(&mut self, name: &str, value: bool)
        ensures
            final(self).ints == old(self).ints,
            final(self).bools@.len() == old(self).bools@.len() + 1,
            final(self).bools@.take(old(self).bools@.len() as int) == old(self).bools@,
            spec_matches(final(self).bools@.last(), name@),
            final(self).bools@.last().values@[0] == value,
    {
        let mut values: Vec<bool> = Vec::new();
        values.push(value);
        self.bools.push(ParamSetItem { name: name.to_owned(), values });
        assert(self.bools@.take(old(self).bools@.len() as int) =~= old(self).bools@);
    }

    /// Adds the parameter `name` with the single value `value`, after those that are there.
    pub fn add_int(&mut self, name: &str, value: i32)
        ensures
            final(self).bools == old(self).bools,
            final(self).ints@.len() == old(self).ints@.len() + 1,
            final(self).ints@.take(old(self).ints@.len() as int) == old(self).ints@,
            spec_matches(final(self).ints@.last(), name@),
            final(self).ints@.last().values@[0] == value,
    {
        let mut values: Vec<i32> = Vec::new();
        values.push(value);
        self.ints.push(ParamSetItem { name: name.to_owned(), values });
        assert(self.ints@.take(old(self).ints@.len() as int) =~= old(self).ints@);
    }

    /// The value of the first parameter `name` that has exactly one value, or `default`.
    pub fn find_one_bool(&self, name: &str, default: bool) -> (r: bool)
        ensures
            r == self.spec_find_one_bool(name@, default),
    {
        find_one(&self.bools, name, default)
    }

    /// The value of the first parameter `name` that has exactly one value, or `default`.
    pub fn find_one_int(&self, name: &str, default: i32) -> (r: i32)
        ensures
            r == self.spec_find_one_int(name@, default),
    {
        find_one(&self.ints, name, default)
    }
}

} // verus!
