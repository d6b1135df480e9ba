//! A JSON Schema document describing the configuration of a service.

use crate::data::value::FloatBits;
use vstd::prelude::*;

verus! {

/// The `type` keyword of a schema.
#[derive(Clone, Copy, Debug, PartialEq, Eq, Structural)]
pub enum SchemaTypes {
    Array,
    Boolean,
    Integer,
    Null,
    Number,
    Object,
    String,
}

/// A bound of `minimum` or `maximum`.
#[derive(Clone, Copy, Debug)]
pub enum RangeValue {
    U64(u64),
    I64(i64),
    F64(FloatBits),
}

/// A JSON Schema document; the properties of an object keep the order of their first insertion.
#[derive(Debug)]
pub struct JsonSchema {
    pub(crate) id: Option<String>,
    pub(crate) title: Option<String>,
    pub(crate) properties: Option<Vec<(String, JsonSchema)>>,
    pub(crate) items: Option<Vec<JsonSchema>>,
    pub(crate) required: Option<Vec<String>>,
    pub(crate) tp: Option<SchemaTypes>,
    pub(crate) one_of: Option<Vec<JsonSchema>>,
    pub(crate) const_: Option<String>,
    pub(crate) additional_properties: Option<Box<JsonSchema>>,
    pub(crate) minimum: Option<RangeValue>,
    pub(crate) maximum: Option<RangeValue>,
    pub(crate) min_length: Option<u64>,
    pub(crate) max_length: Option<u64>,
    pub(crate) is_optional: bool,
}

/// What a schema says, with texts as character sequences.
pub struct SchemaModel {
    pub id: Option<Seq<char>>,
    pub title: Option<Seq<char>>,
    pub properties: Option<Seq<(Seq<char>, SchemaModel)>>,
    pub items: Option<Seq<SchemaModel>>,
    pub required: Option<Seq<Seq<char>>>,
    pub tp: Option<SchemaTypes>,
    pub one_of: Option<Seq<SchemaModel>>,
    pub const_value: Option<Seq<char>>,
    pub additional_properties: Option<Box<SchemaModel>>,
    pub minimum: Option<RangeValue>,
    pub maximum: Option<RangeValue>,
    pub min_length: Option<u64>,
    pub max_length: Option<u64>,
    pub is_optional: bool,
}

pub open spec fn opt_text(s: Option<String>) -> Option<Seq<char>> {
    match s {
        Some(t) => Some(t@),
        None => None,
    }
}

/// The views of a list of texts.
pub open spec fn texts_view(s: Seq<String>) -> Seq<Seq<char>> {
    Seq::new(s.len(), |i: int| s[i]@)
}

pub closed spec fn schema_model(s: JsonSchema) -> SchemaModel
    decreases s,
{
    SchemaModel {
        id: opt_text(s.id),
        title: opt_text(s.title),
        properties: match s.properties {
            Some(v) => Some(props_model(v@)),
            None => None,
        },
        items: match s.items {
            Some(v) => Some(schemas_model(v@)),
            None => None,
        },
        required: match s.required {
            Some(v) => Some(texts_view(v@)),
            None => None,
        },
        tp: s.tp,
        one_of: match s.one_of {
            Some(v) => Some(schemas_model(v@)),
            None => None,
        },
        const_value: opt_text(s.const_),
        additional_properties: match s.additional_properties {
            Some(b) => Some(Box::new(schema_model(*b))),
            None => None,
        },
        minimum: s.minimum,
        maximum: s.maximum,
        min_length: s.min_length,
        max_length: s.max_length,
        is_optional: s.is_optional,
    }
}

pub closed spec fn schemas_model(s: Seq<JsonSchema>) -> Seq<SchemaModel>
    decreases s,
{
    if s.len() == 0 {
        Seq::empty()
    } else {
        schemas_model(s.drop_last()).push(schema_model(s.last()))
    }
}

pub closed spec fn props_model(s: Seq<(String, JsonSchema)>) -> Seq<(Seq<char>, SchemaModel)>
    decreases s,
{
    if s.len() == 0 {
        Seq::empty()
    } else {
        props_model(s.drop_last()).push((s.last().0@, schema_model(s.last().1)))
    }
}

impl View for JsonSchema {
    type V = SchemaModel;

    open spec fn view(&self) -> SchemaModel {
        schema_model(*self)
    }
}

/// The views of a list of schemas.
pub open spec fn schemas_view(s: Seq<JsonSchema>) -> Seq<SchemaModel> {
    Seq::new(s.len(), |i: int| s[i]@)
}

/// The views of a list of named schemas.
pub open spec fn props_view(s: Seq<(String, JsonSchema)>) -> Seq<(Seq<char>, SchemaModel)> {
    Seq::new(s.len(), |i: int| (s[i].0@, s[i].1@))
}

pub proof fn lemma_schemas_model(s: Seq<JsonSchema>)
    ensures
        schemas_model(s) == schemas_view(s),
    decreases s.len(),
{
    if s.len() > 0 {
        lemma_schemas_model(s.drop_last());
        assert(schemas_model(s) =~= schemas_view(s));
    } else {
        assert(schemas_model(s) =~= schemas_view(s));
    }
}

pub proof fn lemma_props_model(s: Seq<(String, JsonSchema)>)
    ensures
        props_model(s) == props_view(s),
    decreases s.len(),
{
    if s.len() > 0 {
        lemma_props_model(s.drop_last());
        assert(props_model(s) =~= props_view(s));
    } else {
        assert(props_model(s) =~= props_view(s));
    }
}

/// What each field of a schema is in its view.
pub(crate) proof fn lemma_schema_view(s: &JsonSchema)
    ensures
        s@.id == opt_text(s.id),
        s@.title == opt_text(s.title),
        s@.properties == match s.properties {
            Some(v) => Some(props_view(v@)),
            None => None::<Seq<(Seq<char>, SchemaModel)>>,
        },
        s@.items == match s.items {
            Some(v) => Some(schemas_view(v@)),
            None => None::<Seq<SchemaModel>>,
        },
        s@.required == match s.required {
            Some(v) => Some(texts_view(v@)),
            None => None::<Seq<Seq<char>>>,
        },
        s@.tp == s.tp,
        s@.one_of == match s.one_of {
            Some(v) => Some(schemas_view(v@)),
            None => None::<Seq<SchemaModel>>,
        },
        s@.const_value == opt_text(s.const_),
        s@.additional_properties == match s.additional_properties {
            Some(b) => Some(Box::new(b@)),
            None => None::<Box<SchemaModel>>,
        },
        s@.minimum == s.minimum,
        s@.maximum == s.maximum,
        s@.min_length == s.min_length,
        s@.max_length == s.max_length,
        s@.is_optional == s.is_optional,
{
    match s.properties {
        Some(v) => lemma_props_model(v@),
        None => {},
    }
    match s.items {
        Some(v) => lemma_schemas_model(v@),
        None => {},
    }
    match s.one_of {
        Some(v) => lemma_schemas_model(v@),
        None => {},
    }
}

/// The schema with no keyword.
pub open spec fn empty_schema() -> SchemaModel {
    SchemaModel {
        id: None,
        title: None,
        properties: None,
        items: None,
        required: None,
        tp: None,
        one_of: None,
        const_value: None,
        additional_properties: None,
        minimum: None,
        maximum: None,
        min_length: None,
        max_length: None,
        is_optional: false,
    }
}

/// The schema of a type and nothing more.
pub open spec fn typed_schema(tp: SchemaTypes) -> SchemaModel {
    SchemaModel { tp: Some(tp), ..empty_schema() }
}

fn clone_texts(v: &Vec<String>) -> (r: Vec<String>)
    ensures
        texts_view(r@) == texts_view(v@),
{
    let mut out: Vec<String> = Vec::new();
    let n = v.len();
    let mut i: usize = 0;
    while i < n
        invariant
            n == v@.len(),
            i <= n,
            out@.len() == i,
            forall|j: int| 0 <= j < i ==> (#[trigger] out@[j])@ == v@[j]@,
        decreases n - i,
    {
        out.push(v[i].clone());
        i = i + 1;
    }
    proof {
        assert(texts_view(out@) =~= texts_view(v@));
    }
    out
}

fn clone_opt_text(s: &Option<String>) -> (r: Option<String>)
    ensures
        opt_text(r) == opt_text(*s),
{
    match s {
        Some(t) => Some(t.clone()),
        None => None,
    }
}

impl JsonSchema {
    /// The schema with no keyword.
    pub fn new() -> (r: JsonSchema)
        ensures
            r@ == empty_schema(),
    {
        let r = JsonSchema {
            id: None,
            title: None,
            properties: None,
            items: None,
            required: None,
            tp: None,
            one_of: None,
            const_: None,
            additional_properties: None,
            minimum: None,
            maximum: None,
            min_length: None,
            max_length: None,
            is_optional: false,
        };
        proof {
            lemma_schema_view(&r);
        }
        r
    }

    /// The schema of a type and nothing more.
    pub fn from_types(tp: SchemaTypes) -> (r: JsonSchema)
        ensures
            r@ == typed_schema(tp),
    {
        let mut r = JsonSchema::new();
        r.tp = Some(tp);
        proof {
            lemma_schema_view(&r);
        }
        r
    }

    pub fn tp(&self) -> (r: Option<SchemaTypes>)
        ensures
            r == self@.tp,
    {
        proof {
            lemma_schema_view(self);
        }
        self.tp
    }

    pub fn is_optional(&self) -> (r: bool)
        ensures
            r == self@.is_optional,
    {
        proof {
            lemma_schema_view(self);
        }
        self.is_optional
    }

    /// The same schema, marked optional.
    pub fn into_optional(self) -> (r: JsonSchema)
        ensures
            r@ == (SchemaModel { is_optional: true, ..self@ }),
    {
        proof {
            lemma_schema_view(&self);
        }
        let mut r = self;
        r.is_optional = true;
        proof {
            lemma_schema_view(&r);
        }
        r
    }

    /// The same schema with `required` set to the given names, or unset where there are none.
    pub fn into_required(self, required: Vec<String>) -> (r: JsonSchema)
        ensures
            r@ == (SchemaModel {
                required: if required@.len() > 0 {
                    Some(texts_view(required@))
                } else {
                    None
                },
                ..self@
            }),
    {
        proof {
            lemma_schema_view(&self);
        }
        let req = if required.len() > 0 {
            Some(required)
        } else {
            None
        };
        let mut r = self;
        r.required = req;
        proof {
            lemma_schema_view(&r);
        }
        r
    }

    /// A copy of the schema.
    pub fn deep_clone(&self) -> (r: JsonSchema)
        ensures
            r@ == self@,
        decreases self,
    {
        proof {
            lemma_schema_view(self);
        }
        let properties = match &self.properties {
            Some(v) => {
                let mut out: Vec<(String, JsonSchema)> = Vec::new();
                let n = v.len();
                let mut i: usize = 0;
                while i < n
                    invariant
                        n == v@.len(),
                        self.properties == Some(*v),
                        i <= n,
                        out@.len() == i,
                        forall|j: int|
                            0 <= j < i ==> (#[trigger] out@[j]).0@ == v@[j].0@ && out@[j].1@
                                == v@[j].1@,
                    decreases n - i,
                {
                    proof {
                        assert(self.properties->0 == *v);
                        assert(decreases_to!(*self => self.properties));
                        assert(decreases_to!(self.properties => self.properties->0));
                        assert(decreases_to!(*v => v@));
                        assert(decreases_to!(v@ => v@[i as int]));
                        assert(decreases_to!(v@[i as int] => v@[i as int].1));
                    }
                    out.push((v[i].0.clone(), v[i].1.deep_clone()));
                    i = i + 1;
                }
                proof {
                    assert(props_view(out@) =~= props_view(v@));
                }
                Some(out)
            },
            None => None,
        };
        let items = match &self.items {
            Some(v) => {
                let mut out: Vec<JsonSchema> = Vec::new();
                let n = v.len();
                let mut i: usize = 0;
                while i < n
                    invariant
                        n == v@.len(),
                        self.items == Some(*v),
                        i <= n,
                        out@.len() == i,
                        forall|j: int| 0 <= j < i ==> (#[trigger] out@[j])@ == v@[j]@,
                    decreases n - i,
                {
                    proof {
                        assert(self.items->0 == *v);
                        assert(decreases_to!(*self => self.items));
                        assert(decreases_to!(self.items => self.items->0));
                        assert(decreases_to!(*v => v@));
                        assert(decreases_to!(v@ => v@[i as int]));
                    }
                    out.push(v[i].deep_clone());
                    i = i + 1;
                }
                proof {
                    assert(schemas_view(out@) =~= schemas_view(v@));
                }
                Some(out)
            },
            None => None,
        };
        let one_of = match &self.one_of {
            Some(v) => {
                let mut out: Vec<JsonSchema> = Vec::new();
                let n = v.len();
                let mut i: usize = 0;
                while i < n
                    invariant
                        n == v@.len(),
                        self.one_of == Some(*v),
                        i <= n,
                        out@.len() == i,
                        forall|j: int| 0 <= j < i ==> (#[trigger] out@[j])@ == v@[j]@,
                    decreases n - i,
                {
                    proof {
                        assert(self.one_of->0 == *v);
                        assert(decreases_to!(*self => self.one_of));
                        assert(decreases_to!(self.one_of => self.one_of->0));
                        assert(decreases_to!(*v => v@));
                        assert(decreases_to!(v@ => v@[i as int]));
                    }
                    out.push(v[i].deep_clone());
                    i = i + 1;
                }
                proof {
                    assert(schemas_view(out@) =~= schemas_view(v@));
                }
                Some(out)
            },
            None => None,
        };
        let required = match &self.required {
            Some(v) => Some(clone_texts(v)),
            None => None,
        };
        let additional_properties = match &self.additional_properties {
            Some(b) => {
                proof {
                    assert(self.additional_properties->0 == *b);
                    assert(decreases_to!(*self => self.additional_properties));
                    assert(decreases_to!(self.additional_properties => self.additional_properties->0));
                }
                Some(Box::new(b.deep_clone()))
            },
            None => None,
        };
        let r = JsonSchema {
            id: clone_opt_text(&self.id),
            title: clone_opt_text(&self.title),
            properties,
            items,
            required,
            tp: self.tp,
            one_of,
            const_: clone_opt_text(&self.const_),
            additional_properties,
            minimum: self.minimum,
            maximum: self.maximum,
            min_length: self.min_length,
            max_length: self.max_length,
            is_optional: self.is_optional,
        };
        proof {
            lemma_schema_view(&r);
        }
        r
    }
}

impl Clone for JsonSchema {
    fn clone(&self) -> (r: JsonSchema)
        ensures
            r@ == self@,
    {
        self.deep_clone()
    }
}

} // verus!
