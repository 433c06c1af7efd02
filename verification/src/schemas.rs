//! The discriminator of a schema: which property of an instance carries its
//! tag, and which reference each tag stands for.

use crate::error::DiscriminatorFault;
use crate::json::{as_text, entries, entry_views, json_of, kind_of, lists_members, member, Json, JsonKind};
use serde_json::Value;
use vstd::hash_map::StringHashMap;
use vstd::prelude::*;
use vstd::string::*;

verus! {

/// A discriminator, as contracts see it.
pub struct DiscriminatorView {
    /// The name of the property that carries the tag.
    pub property_name: Seq<char>,
    /// The reference that each tag stands for.
    pub mapping: Map<Seq<char>, Seq<char>>,
}

/// The texts of the members of an object whose members are all strings.
pub open spec fn member_texts(members: Map<Seq<char>, Json>) -> Map<Seq<char>, Seq<char>> {
    Map::new(|key: Seq<char>| members.contains_key(key), |key: Seq<char>| members[key]->String_0)
}

/// What the payload of a `discriminator` keyword describes, or why it is
/// refused. The payload is an object; its `propertyName` is a string that is
/// not empty; its `mapping`, where it has one, is an object of strings.
pub open spec fn discriminator_of(payload: Json) -> Result<DiscriminatorView, DiscriminatorFault> {
    if !(payload is Object) {
        Err(DiscriminatorFault::NotAnObject)
    } else {
        match payload.member("propertyName"@) {
            None => Err(DiscriminatorFault::MissingPropertyName),
            Some(Json::String(property_name)) => if property_name.len() == 0 {
                Err(DiscriminatorFault::EmptyPropertyName)
            } else {
                match payload.member("mapping"@) {
                    None => Ok(DiscriminatorView { property_name, mapping: Map::empty() }),
                    Some(Json::Object(members)) => if forall|key: Seq<char>|
                        members.contains_key(key) ==> #[trigger] members[key] is String {
                        Ok(DiscriminatorView { property_name, mapping: member_texts(members) })
                    } else {
                        Err(DiscriminatorFault::MappingValueNotString)
                    },
                    Some(_) => Err(DiscriminatorFault::MappingNotObject),
                }
            },
            Some(_) => Err(DiscriminatorFault::PropertyNameNotString),
        }
    }
}

/// A compiled discriminator.
pub struct Discriminator {
    property_name: String,
    mapping: StringHashMap<String>,
}

impl View for Discriminator {
    type V = DiscriminatorView;

    closed spec fn view(&self) -> DiscriminatorView {
        DiscriminatorView {
            property_name: self.property_name@,
            mapping: self.mapping@.map_values(|reference: String| reference@),
        }
    }
}

impl Discriminator {
    /// The name of the property is never empty.
    #[verifier::type_invariant]
    pub open spec fn wf(&self) -> bool {
        self@.property_name.len() > 0
    }

    /// Reads the payload of a `discriminator` keyword.
    #[verifier::loop_isolation(false)]
    pub fn parse(payload: &Value) -> (parsed: Result<Discriminator, DiscriminatorFault>)
        ensures
            match parsed {
                Ok(discriminator) => discriminator.wf() && discriminator_of(json_of(*payload)) == Ok::<
                    DiscriminatorView,
                    DiscriminatorFault,
                >(discriminator@),
                Err(fault) => discriminator_of(json_of(*payload)) == Err::<
                    DiscriminatorView,
                    DiscriminatorFault,
                >(fault),
            },
    {
        if kind_of(payload) != JsonKind::Object {
            return Err(DiscriminatorFault::NotAnObject);
        }
        let property_name = match member(payload, "propertyName") {
            None => {
                return Err(DiscriminatorFault::MissingPropertyName);
            },
            Some(name) => match as_text(name) {
                None => {
                    return Err(DiscriminatorFault::PropertyNameNotString);
                },
                Some(text) => text,
            },
        };
        if property_name.is_empty() {
            return Err(DiscriminatorFault::EmptyPropertyName);
        }
        let mut mapping: StringHashMap<String> = StringHashMap::new();
        match member(payload, "mapping") {
            None => {
                assert(mapping@.map_values(|reference: String| reference@) =~= Map::<
                    Seq<char>,
                    Seq<char>,
                >::empty());
            },
            Some(table) => match entries(table) {
                None => {
                    return Err(DiscriminatorFault::MappingNotObject);
                },
                Some(listed) => {
                    let ghost members = json_of(*table)->Object_0;
                    let mut i: usize = 0;
                    while i < listed.len()
                        invariant
                            i <= listed@.len(),
                            lists_members(entry_views(listed@), members),
                            forall|j: int|
                                0 <= j < i ==> mapping@.contains_key(#[trigger] entry_views(listed@)[j].0),
                            forall|key: Seq<char>| #[trigger]
                                mapping@.contains_key(key) ==> members.contains_key(key)
                                    && members[key] == Json::String(mapping@[key]@),
                            forall|j: int|
                                0 <= j < i ==> (#[trigger] entry_views(listed@)[j]).1 is String,
                        decreases listed@.len() - i,
                    {
                        let key = listed[i].0;
                        let value = listed[i].1;
                        match as_text(value) {
                            None => {
                                assert(members.contains_key(entry_views(listed@)[i as int].0));
                                return Err(DiscriminatorFault::MappingValueNotString);
                            },
                            Some(reference) => {
                                assert(members.contains_key(entry_views(listed@)[i as int].0));
                                mapping.insert(key.clone(), String::from_str(reference));
                            },
                        }
                        i += 1;
                    }
                    proof {
                        assert forall|key: Seq<char>| members.contains_key(key) implies #[trigger] members[key] is String
                            && mapping@.contains_key(key) by {
                            let j = choose|j: int|
                                0 <= j < listed@.len() && #[trigger] entry_views(listed@)[j].0 == key;
                            assert(mapping@.contains_key(entry_views(listed@)[j].0));
                        }
                        assert(mapping@.map_values(|reference: String| reference@) =~= member_texts(
                            members,
                        ));
                    }
                },
            },
        }
        Ok(Discriminator { property_name: String::from_str(property_name), mapping })
    }

    /// The name of the property that carries the tag.
    pub fn property_name(&self) -> (name: &str)
        ensures
            name@ == self@.property_name,
            name@.len() > 0,
    {
        proof {
            use_type_invariant(self);
        }
        self.property_name.as_str()
    }

    /// The reference that `tag` stands for.
    pub fn reference_for(&self, tag: &str) -> (reference: Option<&str>)
        ensures
            match reference {
                Some(text) => self@.mapping.contains_key(tag@) && self@.mapping[tag@] == text@,
                None => !self@.mapping.contains_key(tag@),
            },
    {
        match self.mapping.get(tag) {
            Some(reference) => Some(reference.as_str()),
            None => None,
        }
    }
}

} // verus!
