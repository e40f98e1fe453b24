use vstd::pervasive::VecAdditionalExecFns;
use vstd::prelude::*;
use vstd::string::StringExecFns;

use crate::number::Number;

verus! {

/// Length bounds for a string, counted in UTF-8 bytes.
#[derive(Clone, Copy, Debug)]
pub struct StringSchema {
    pub min_length: Option<usize>,
    pub max_length: Option<usize>,
}

/// Bounds for a number, compared as floating-point values.
#[derive(Clone, Copy, Debug)]
pub struct NumberSchema {
    pub min: Option<Number>,
    pub max: Option<Number>,
}

/// An object's declared properties, its required keys, and whether keys
/// without a declared property are accepted.
#[derive(Debug)]
pub struct ObjectSchema {
    /// One entry per property name: the builder replaces an earlier entry
    /// of the same name, and a lookup reads the first entry with a name.
    pub properties: Vec<(String, Schema)>,
    /// The names an object must have, as a set: each missing name is
    /// reported once, however often it is listed.
    pub required: Vec<String>,
    pub additional_properties: bool,
}

/// A schema for every element of an array, and bounds on its length.
#[derive(Debug)]
pub struct ArraySchema {
    pub items: Option<Box<Schema>>,
    pub min_items: Option<usize>,
    pub max_items: Option<usize>,
}

/// One validation rule.
#[derive(Debug)]
pub enum Schema {
    String(StringSchema),
    Number(NumberSchema),
    Boolean,
    Object(ObjectSchema),
    Array(ArraySchema),
}

/// `i` is the first position of `s` whose key is `k`.
pub open spec fn is_first_key<T>(s: Seq<(String, T)>, k: Seq<char>, i: int) -> bool {
    &&& 0 <= i < s.len()
    &&& s[i].0@ == k
    &&& forall|j: int| 0 <= j < i ==> (#[trigger] s[j]).0@ != k
}

/// Whether some entry of `s` has the key `k`.
pub open spec fn has_entry<T>(s: Seq<(String, T)>, k: Seq<char>) -> bool {
    exists|i: int| 0 <= i < s.len() && (#[trigger] s[i]).0@ == k
}

/// The value of the first entry with key `k`, if any.
pub open spec fn lookup<T>(s: Seq<(String, T)>, k: Seq<char>) -> Option<T> {
    if exists|i: int| is_first_key(s, k, i) {
        Some(s[choose|i: int| is_first_key(s, k, i)].1)
    } else {
        None
    }
}

/// An entry with key `k` has a first position, and `lookup` reads it.
pub proof fn lemma_lookup_first<T>(s: Seq<(String, T)>, k: Seq<char>, i: int)
    requires
        is_first_key(s, k, i),
    ensures
        lookup(s, k) == Some(s[i].1),
{
    assert(s[i].0@ == k);
    let c = choose|c: int| is_first_key(s, k, c);
    assert(is_first_key(s, k, c));
    if c < i {
        assert(s[c].0@ != k);
    } else if i < c {
        assert(s[i].0@ != k);
    }
}

/// Whether one of the first `n` names is `k`.
pub open spec fn names_contain(names: Seq<String>, n: int, k: Seq<char>) -> bool {
    exists|j: int| 0 <= j < n && (#[trigger] names[j])@ == k
}

/// Whether one of the first `n` names is `k`.
pub fn contains_name(names: &Vec<String>, n: usize, k: &String) -> (r: bool)
    requires
        n <= names@.len(),
    ensures
        r == names_contain(names@, n as int, k@),
{
    let mut i: usize = 0;
    while i < n
        invariant
            i <= n <= names@.len(),
            forall|j: int| 0 <= j < i ==> (#[trigger] names@[j])@ != k@,
        decreases n - i,
    {
        if names[i] == *k {
            return true;
        }
        i = i + 1;
    }
    false
}

/// The first entry of `s` with key `k`.
pub fn find_key<T>(s: &Vec<(String, T)>, k: &String) -> (r: Option<usize>)
    ensures
        match r {
            Some(i) => is_first_key(s@, k@, i as int),
            None => !has_entry(s@, k@),
        },
{
    let mut i: usize = 0;
    while i < s.len()
        invariant
            i <= s@.len(),
            forall|j: int| 0 <= j < i ==> (#[trigger] s@[j]).0@ != k@,
        decreases s@.len() - i,
    {
        if s[i].0 == *k {
            return Some(i);
        }
        i = i + 1;
    }
    None
}

impl Schema {
    /// A builder for a string schema with no bounds.
    pub fn string() -> (r: StringBuilder)
        ensures
            r.min_length is None,
            r.max_length is None,
    {
        StringBuilder { min_length: None, max_length: None }
    }

    /// A builder for a number schema with no bounds.
    pub fn number() -> (r: NumberBuilder)
        ensures
            r.min is None,
            r.max is None,
    {
        NumberBuilder { min: None, max: None }
    }

    /// A builder for an object schema with no properties, no required keys,
    /// and other keys accepted.
    pub fn object() -> (r: ObjectBuilder)
        ensures
            r.properties@.len() == 0,
            r.required@.len() == 0,
            r.additional_properties,
    {
        ObjectBuilder {
            properties: Vec::new(),
            required: Vec::new(),
            additional_properties: true,
        }
    }

    /// A builder for an array schema with no item schema and no bounds.
    pub fn array() -> (r: ArrayBuilder)
        ensures
            r.items is None,
            r.min_items is None,
            r.max_items is None,
    {
        ArrayBuilder { items: None, min_items: None, max_items: None }
    }
}

pub struct StringBuilder {
    pub min_length: Option<usize>,
    pub max_length: Option<usize>,
}

impl StringBuilder {
    pub fn min_length(self, min: usize) -> (r: Self)
        ensures
            r.min_length == Some(min),
            r.max_length == self.max_length,
    {
        StringBuilder { min_length: Some(min), max_length: self.max_length }
    }

    pub fn max_length(self, max: usize) -> (r: Self)
        ensures
            r.min_length == self.min_length,
            r.max_length == Some(max),
    {
        StringBuilder { min_length: self.min_length, max_length: Some(max) }
    }

    pub fn build(self) -> (r: Schema)
        ensures
            r == Schema::String(
                StringSchema { min_length: self.min_length, max_length: self.max_length },
            ),
    {
        Schema::String(StringSchema { min_length: self.min_length, max_length: self.max_length })
    }
}

pub struct NumberBuilder {
    pub min: Option<Number>,
    pub max: Option<Number>,
}

impl NumberBuilder {
    pub fn min(self, min: Number) -> (r: Self)
        ensures
            r.min == Some(min),
            r.max == self.max,
    {
        NumberBuilder { min: Some(min), max: self.max }
    }

    pub fn max(self, max: Number) -> (r: Self)
        ensures
            r.min == self.min,
            r.max == Some(max),
    {
        NumberBuilder { min: self.min, max: Some(max) }
    }

    pub fn build(self) -> (r: Schema)
        ensures
            r == Schema::Number(NumberSchema { min: self.min, max: self.max }),
    {
        Schema::Number(NumberSchema { min: self.min, max: self.max })
    }
}

pub struct ObjectBuilder {
    pub properties: Vec<(String, Schema)>,
    pub required: Vec<String>,
    pub additional_properties: bool,
}

impl ObjectBuilder {
    /// Declares the schema of the property `name`; a later declaration of
    /// the same name replaces an earlier one.
    pub fn property(self, name: &str, schema: Schema) -> (r: Self)
        ensures
            lookup(r.properties@, name@) == Some(schema),
            forall|k: Seq<char>|
                k != name@ ==> #[trigger] lookup(r.properties@, k) == lookup(self.properties@, k),
            r.properties@.len() == if has_entry(self.properties@, name@) {
                self.properties@.len()
            } else {
                self.properties@.len() + 1
            },
            r.required == self.required,
            r.additional_properties == self.additional_properties,
    {
        let ObjectBuilder { properties, required, additional_properties } = self;
        let mut properties = properties;
        let ghost old_props = properties@;
        let key = String::from_str(name);
        match find_key(&properties, &key) {
            Some(i) => {
                properties.set(i, (key, schema));
                proof {
                    let new_props = properties@;
                    assert forall|j: int| 0 <= j < new_props.len() implies
                        (#[trigger] new_props[j]).0@ == old_props[j].0@ by {}
                    assert(is_first_key(new_props, name@, i as int));
                    lemma_lookup_first(new_props, name@, i as int);
                    assert forall|k: Seq<char>| k != name@ implies #[trigger] lookup(new_props, k)
                        == lookup(old_props, k) by {
                        assert forall|j: int|
                            is_first_key(new_props, k, j) <==> is_first_key(old_props, k, j) by {
                            if 0 <= j < new_props.len() {
                                assert(new_props[j].0@ == old_props[j].0@);
                                assert forall|m: int| 0 <= m < j implies
                                    (new_props[m].0@ == k <==> old_props[m].0@ == k) by {
                                    assert(new_props[m].0@ == old_props[m].0@);
                                }
                            }
                        }
                        if exists|j: int| is_first_key(old_props, k, j) {
                            let j = choose|j: int| is_first_key(old_props, k, j);
                            lemma_lookup_first(old_props, k, j);
                            lemma_lookup_first(new_props, k, j);
                        }
                    }
                }
            },
            None => {
                properties.push((key, schema));
                proof {
                    let new_props = properties@;
                    let n = old_props.len() as int;
                    assert(new_props[n].0@ == name@);
                    assert(is_first_key(new_props, name@, n));
                    lemma_lookup_first(new_props, name@, n);
                    assert forall|k: Seq<char>| k != name@ implies #[trigger] lookup(new_props, k)
                        == lookup(old_props, k) by {
                        assert forall|j: int|
                            is_first_key(new_props, k, j) <==> is_first_key(old_props, k, j) by {
                            if 0 <= j < n {
                                assert(new_props[j] == old_props[j]);
                                assert forall|m: int| 0 <= m < j implies new_props[m] == old_props[m] by {}
                            }
                        }
                        if exists|j: int| is_first_key(old_props, k, j) {
                            let j = choose|j: int| is_first_key(old_props, k, j);
                            lemma_lookup_first(old_props, k, j);
                            lemma_lookup_first(new_props, k, j);
                        }
                    }
                }
            },
        }
        ObjectBuilder { properties, required, additional_properties }
    }

    /// Adds `name` to the keys that an object must have; a name that is
    /// already required is not added again.
    pub fn required(self, name: &str) -> (r: Self)
        ensures
            r.properties == self.properties,
            names_contain(self.required@, self.required@.len() as int, name@) ==> r.required
                == self.required,
            !names_contain(self.required@, self.required@.len() as int, name@) ==> {
                &&& r.required@.len() == self.required@.len() + 1
                &&& r.required@.drop_last() == self.required@
                &&& r.required@.last()@ == name@
            },
            r.additional_properties == self.additional_properties,
    {
        let ObjectBuilder { properties, required, additional_properties } = self;
        let mut required = required;
        let key = String::from_str(name);
        if !contains_name(&required, required.len(), &key) {
            required.push(key);
            proof {
                assert(required@.drop_last() =~= self.required@);
            }
        }
        ObjectBuilder { properties, required, additional_properties }
    }

    /// Rejects keys that have no declared property.
    pub fn strict(self) -> (r: Self)
        ensures
            r.properties == self.properties,
            r.required == self.required,
            !r.additional_properties,
    {
        ObjectBuilder {
            properties: self.properties,
            required: self.required,
            additional_properties: false,
        }
    }

    pub fn build(self) -> (r: Schema)
        ensures
            r == Schema::Object(
                ObjectSchema {
                    properties: self.properties,
                    required: self.required,
                    additional_properties: self.additional_properties,
                },
            ),
    {
        Schema::Object(
            ObjectSchema {
                properties: self.properties,
                required: self.required,
                additional_properties: self.additional_properties,
            },
        )
    }
}

pub struct ArrayBuilder {
    pub items: Option<Box<Schema>>,
    pub min_items: Option<usize>,
    pub max_items: Option<usize>,
}

impl ArrayBuilder {
    /// Sets the schema that every element must meet.
    pub fn items(self, schema: Schema) -> (r: Self)
        ensures
            r.items == Some(Box::new(schema)),
            r.min_items == self.min_items,
            r.max_items == self.max_items,
    {
        ArrayBuilder {
            items: Some(Box::new(schema)),
            min_items: self.min_items,
            max_items: self.max_items,
        }
    }

    pub fn min_items(self, min: usize) -> (r: Self)
        ensures
            r.items == self.items,
            r.min_items == Some(min),
            r.max_items == self.max_items,
    {
        ArrayBuilder { items: self.items, min_items: Some(min), max_items: self.max_items }
    }

    pub fn max_items(self, max: usize) -> (r: Self)
        ensures
            r.items == self.items,
            r.min_items == self.min_items,
            r.max_items == Some(max),
    {
        ArrayBuilder { items: self.items, min_items: self.min_items, max_items: Some(max) }
    }

    pub fn build(self) -> (r: Schema)
        ensures
            r == Schema::Array(
                ArraySchema {
                    items: self.items,
                    min_items: self.min_items,
                    max_items: self.max_items,
                },
            ),
    {
        Schema::Array(
            ArraySchema {
                items: self.items,
                min_items: self.min_items,
                max_items: self.max_items,
            },
        )
    }
}

fn copy_object(o: &ObjectSchema) -> (r: ObjectSchema)
    decreases o,
{
    let mut properties: Vec<(String, Schema)> = Vec::new();
    let mut i: usize = 0;
    while i < o.properties.len()
        invariant
            i <= o.properties@.len(),
        decreases o.properties@.len() - i,
    {
        proof {
            assert(decreases_to!(*o => o.properties));
            assert(decreases_to!(o.properties => o.properties[i as int]));
        }
        properties.push((o.properties[i].0.clone(), copy_schema(&o.properties[i].1)));
        i = i + 1;
    }
    let mut required: Vec<String> = Vec::new();
    let mut j: usize = 0;
    while j < o.required.len()
        invariant
            j <= o.required@.len(),
        decreases o.required@.len() - j,
    {
        required.push(o.required[j].clone());
        j = j + 1;
    }
    ObjectSchema { properties, required, additional_properties: o.additional_properties }
}

fn copy_array(a: &ArraySchema) -> (r: ArraySchema)
    decreases a,
{
    let items = match &a.items {
        Some(item) => {
            proof {
                assert(decreases_to!(*a => a.items));
            }
            Some(Box::new(copy_schema(item)))
        },
        None => None,
    };
    ArraySchema { items, min_items: a.min_items, max_items: a.max_items }
}

fn copy_schema(s: &Schema) -> (r: Schema)
    decreases s,
{
    match s {
        Schema::String(ss) => Schema::String(*ss),
        Schema::Number(ns) => Schema::Number(*ns),
        Schema::Boolean => Schema::Boolean,
        Schema::Object(os) => {
            proof {
                assert(decreases_to!(*s => (*s)->Object_0));
            }
            Schema::Object(copy_object(os))
        },
        Schema::Array(a) => {
            proof {
                assert(decreases_to!(*s => (*s)->Array_0));
            }
            Schema::Array(copy_array(a))
        },
    }
}

impl Clone for Schema {
    fn clone(&self) -> (r: Schema) {
        copy_schema(self)
    }
}

impl Clone for ObjectSchema {
    fn clone(&self) -> (r: ObjectSchema) {
        copy_object(self)
    }
}

impl Clone for ArraySchema {
    fn clone(&self) -> (r: ArraySchema) {
        copy_array(self)
    }
}

} // verus!
