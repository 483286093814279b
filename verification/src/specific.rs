//! The widget-specific data of an inspected widget, as JSON.
//!
//! A value is held as its JSON text, except that the members of an object are
//! held one by one, in the order in which the parsed object yields them
//! (`serde_json` keeps an object's members ordered by name): those are what
//! the inspector reads.
use vstd::prelude::*;

verus! {

/// A member of a JSON object: its name, and its value as JSON text.
#[derive(Debug)]
pub struct Field {
    pub name: String,
    pub value: String,
}

pub struct FieldView {
    pub name: Seq<char>,
    pub value: Seq<char>,
}

impl View for Field {
    type V = FieldView;

    open spec fn view(&self) -> FieldView {
        FieldView { name: self.name@, value: self.value@ }
    }
}

impl Clone for Field {
    fn clone(&self) -> (r: Self)
        ensures
            r == *self,
    {
        Field { name: self.name.clone(), value: self.value.clone() }
    }
}

/// A JSON value: an object, member by member, or any other value as text.
#[derive(Debug)]
pub enum Specific {
    Object(Vec<Field>),
    Other(String),
}

pub enum SpecificView {
    Object(Seq<FieldView>),
    Other(Seq<char>),
}

pub open spec fn fields_view(fields: Seq<Field>) -> Seq<FieldView> {
    fields.map_values(|f: Field| f@)
}

impl View for Specific {
    type V = SpecificView;

    open spec fn view(&self) -> SpecificView {
        match self {
            Specific::Object(fields) => SpecificView::Object(fields_view(fields@)),
            Specific::Other(text) => SpecificView::Other(text@),
        }
    }
}

fn clone_fields(fields: &Vec<Field>) -> (r: Vec<Field>)
    ensures
        r@ == fields@,
{
    let mut r: Vec<Field> = Vec::new();
    let mut i: usize = 0;
    while i < fields.len()
        invariant
            i <= fields.len(),
            r@ == fields@.subrange(0, i as int),
        decreases fields.len() - i,
    {
        r.push(fields[i].clone());
        i += 1;
    }
    r
}

impl Clone for Specific {
    fn clone(&self) -> (r: Self)
        ensures
            r@ == self@,
    {
        match self {
            Specific::Object(fields) => Specific::Object(clone_fields(fields)),
            Specific::Other(text) => Specific::Other(text.clone()),
        }
    }
}

/// The decoder gave `None` for the value of each of the first `n` fields.
pub open spec fn none_decoded<T, F: Fn(&String) -> Option<T>>(
    fields: Seq<Field>,
    decode: F,
    n: int,
) -> bool {
    forall|j: int| 0 <= j < n ==> call_ensures(decode, (&fields[j].value,), None::<T>)
}

/// What `serde_json` reads from the JSON text `text`: `None` when the text is
/// not JSON; an object member by member, each member's value written back as
/// compact JSON text; any other value as its compact JSON text.
pub uninterp spec fn parsed_json(text: Seq<char>) -> Option<SpecificView>;

/// `serde_json::from_str` into a `serde_json::Value`, converted: an object
/// member by member, each value written back with its `Display`, which is
/// `serde_json::to_string`; any other value likewise as text. Which texts are
/// JSON, and what they read as, is left to the name `parsed_json`, which
/// depends on the text alone.
#[verifier::external_body]
fn parse_json(content: &str) -> (r: Option<Specific>)
    ensures
        r is Some <==> parsed_json(content@) is Some,
        r matches Some(s) ==> parsed_json(content@) == Some(s@),
{
    match serde_json::from_str::<serde_json::Value>(content) {
        Ok(serde_json::Value::Object(members)) => Some(
            Specific::Object(
                members.iter().map(
                    |(name, value)| Field { name: name.clone(), value: value.to_string() },
                ).collect(),
            ),
        ),
        Ok(other) => Some(Specific::Other(other.to_string())),
        Err(_) => None,
    }
}

impl Specific {
    /// Reads JSON text: `None` when the text is not JSON.
    pub fn parse(content: &str) -> (r: Option<Specific>)
        ensures
            r is Some <==> parsed_json(content@) is Some,
            r matches Some(s) ==> parsed_json(content@) == Some(s@),
    {
        parse_json(content)
    }

    /// Reads text that is JSON.
    pub fn from_str(content: &str) -> (r: Specific)
        requires
            parsed_json(content@) is Some,
        ensures
            parsed_json(content@) == Some(r@),
    {
        match parse_json(content) {
            Some(s) => s,
            None => unreached(),
        }
    }

    /// Whether the value is a JSON object.
    pub fn is_object(&self) -> (r: bool)
        ensures
            r == (self is Object),
    {
        match self {
            Specific::Object(_) => true,
            Specific::Other(_) => false,
        }
    }

    /// The members of the object, in order.
    pub fn fields(&self) -> (r: &Vec<Field>)
        requires
            self is Object,
        ensures
            *r == self->Object_0,
    {
        match self {
            Specific::Object(fields) => fields,
            Specific::Other(_) => unreached(),
        }
    }

    /// The first member value of the object, in order, that `decode` accepts,
    /// decoded; `None` when no member value decodes or the value is no object.
    pub fn find_and_get<T, F: Fn(&String) -> Option<T>>(&self, decode: F) -> (r: Option<T>)
        requires
            self is Object ==> forall|i: int|
                0 <= i < self->Object_0@.len() ==> call_requires(
                    decode,
                    (&self->Object_0@[i].value,),
                ),
        ensures
            self is Other ==> r is None,
            self is Object ==> {
                let fields = self->Object_0@;
                match r {
                    None => none_decoded(fields, decode, fields.len() as int),
                    Some(t) => exists|i: int|
                        #![trigger fields[i]]
                        0 <= i < fields.len() && call_ensures(decode, (&fields[i].value,), Some(t))
                            && none_decoded(fields, decode, i),
                }
            },
    {
        match self {
            Specific::Other(_) => None,
            Specific::Object(fields) => {
                let mut i: usize = 0;
                while i < fields.len()
                    invariant
                        i <= fields.len(),
                        *self == Specific::Object(*fields),
                        forall|k: int|
                            0 <= k < fields@.len() ==> call_requires(decode, (&fields@[k].value,)),
                        none_decoded(fields@, decode, i as int),
                    decreases fields.len() - i,
                {
                    let decoded = decode(&fields[i].value);
                    match decoded {
                        Some(t) => {
                            assert(call_ensures(decode, (&fields@[i as int].value,), Some(t)));
                            assert(none_decoded(fields@, decode, i as int));
                            assert(self->Object_0@ == fields@);
                            return Some(t);
                        },
                        None => {},
                    }
                    i += 1;
                }
                None
            },
        }
    }
}

} // verus!
