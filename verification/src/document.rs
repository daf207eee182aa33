//! The in-memory document: an ordered, schema-free tree with three named
//! collections (`passwords`, `identities`, `cards`), each an ordered list of
//! flat entries whose fields hold strings or booleans. The storage subsystem
//! transports this shape; it does not validate any particular schema.

use vstd::prelude::*;

verus! {

/// A single field value: a string or a boolean flag.
#[derive(Debug, Clone, PartialEq)]
pub enum FieldValue {
    Text(String),
    Flag(bool),
}

/// Mathematical model of a [`FieldValue`].
#[verifier::ext_equal]
pub enum ValueModel {
    Text(Seq<char>),
    Flag(bool),
}

impl View for FieldValue {
    type V = ValueModel;

    open spec fn view(&self) -> ValueModel {
        match self {
            FieldValue::Text(s) => ValueModel::Text(s@),
            FieldValue::Flag(b) => ValueModel::Flag(*b),
        }
    }
}

/// One named field of an entry.
#[derive(Debug, Clone, PartialEq)]
pub struct Field {
    pub name: String,
    pub value: FieldValue,
}

/// Mathematical model of a [`Field`].
#[verifier::ext_equal]
pub struct FieldModel {
    pub name: Seq<char>,
    pub value: ValueModel,
}

impl View for Field {
    type V = FieldModel;

    open spec fn view(&self) -> FieldModel {
        FieldModel { name: self.name@, value: self.value@ }
    }
}

/// One entry: an ordered list of fields. Insertion order is preserved so
/// that entries keep a stable appearance across a save/load cycle.
#[derive(Debug, Clone, PartialEq)]
pub struct Entry {
    pub fields: Vec<Field>,
}

/// Mathematical model of an [`Entry`].
#[verifier::ext_equal]
pub struct EntryModel {
    pub fields: Seq<FieldModel>,
}

impl View for Entry {
    type V = EntryModel;

    open spec fn view(&self) -> EntryModel {
        EntryModel { fields: self.fields@.map_values(|f: Field| f@) }
    }
}

/// The whole document: three ordered collections of entries.
#[derive(Debug, Clone, PartialEq)]
pub struct Document {
    pub passwords: Vec<Entry>,
    pub identities: Vec<Entry>,
    pub cards: Vec<Entry>,
}

/// Mathematical model of a [`Document`].
#[verifier::ext_equal]
pub struct DocumentModel {
    pub passwords: Seq<EntryModel>,
    pub identities: Seq<EntryModel>,
    pub cards: Seq<EntryModel>,
}

impl View for Document {
    type V = DocumentModel;

    open spec fn view(&self) -> DocumentModel {
        DocumentModel {
            passwords: self.passwords@.map_values(|e: Entry| e@),
            identities: self.identities@.map_values(|e: Entry| e@),
            cards: self.cards@.map_values(|e: Entry| e@),
        }
    }
}

impl EntryModel {
    /// Field names are unique within an entry.
    pub open spec fn wf(self) -> bool {
        forall|i: int, j: int|
            0 <= i < j < self.fields.len() ==> self.fields[i].name != self.fields[j].name
    }
}

impl DocumentModel {
    /// Every entry of every collection has unique field names.
    pub open spec fn wf(self) -> bool {
        &&& forall|i: int| 0 <= i < self.passwords.len() ==> (#[trigger] self.passwords[i]).wf()
        &&& forall|i: int| 0 <= i < self.identities.len() ==> (#[trigger] self.identities[i]).wf()
        &&& forall|i: int| 0 <= i < self.cards.len() ==> (#[trigger] self.cards[i]).wf()
    }
}

/// How setting the field `name` to `value` transforms a field list: the
/// first field of that name is replaced, or the field is appended when no
/// field of that name exists.
pub open spec fn set_rel(pre: Seq<FieldModel>, post: Seq<FieldModel>, name: Seq<char>, value: ValueModel) -> bool {
    if exists|i: int| 0 <= i < pre.len() && (#[trigger] pre[i]).name == name {
        exists|i: int|
            {
                &&& 0 <= i < pre.len()
                &&& (#[trigger] pre[i]).name == name
                &&& post == pre.update(i, FieldModel { name: name, value: value })
            }
    } else {
        post == pre.push(FieldModel { name: name, value: value })
    }
}

impl Entry {
    /// An entry with no fields.
    pub fn new() -> (r: Entry)
        ensures
            r@.fields.len() == 0,
    {
        Entry { fields: Vec::new() }
    }

    /// Appends a field, without checking for a duplicate name.
    pub fn push_field(&mut self, name: String, value: FieldValue)
        ensures
            final(self)@.fields == old(self)@.fields.push(FieldModel { name: name@, value: value@ }),
    {
        let ghost before = self@.fields;
        self.fields.push(Field { name, value });
        proof {
            assert(final(self)@.fields =~= before.push(final(self).fields@.last()@));
        }
    }

    /// The index of the field with the given name, if any.
    pub fn find_field(&self, name: &String) -> (r: Option<usize>)
        ensures
            match r {
                Some(i) => i < self@.fields.len() && self@.fields[i as int].name == name@
                    && forall|k: int| 0 <= k < i ==> (#[trigger] self@.fields[k]).name != name@,
                None => forall|i: int| 0 <= i < self@.fields.len()
                    ==> (#[trigger] self@.fields[i]).name != name@,
            },
    {
        let mut i: usize = 0;
        while i < self.fields.len()
            invariant
                i <= self.fields.len(),
                self@.fields.len() == self.fields.len(),
                forall|k: int| 0 <= k < i ==> (#[trigger] self@.fields[k]).name != name@,
            decreases self.fields.len() - i,
        {
            proof {
                assert(self@.fields[i as int] == self.fields@[i as int]@);
            }
            if self.fields[i].name.eq(name) {
                return Some(i);
            }
            i = i + 1;
        }
        None
    }

    /// A copy of the value of the named field, if the entry has it.
    pub fn get_field(&self, name: &String) -> (r: Option<FieldValue>)
        ensures
            match r {
                Some(v) => exists|i: int|
                    0 <= i < self@.fields.len() && (#[trigger] self@.fields[i]).name == name@
                        && self@.fields[i].value == v@,
                None => forall|i: int| 0 <= i < self@.fields.len()
                    ==> (#[trigger] self@.fields[i]).name != name@,
            },
    {
        match self.find_field(name) {
            Some(i) => Some(self.fields[i].value.clone_value()),
            None => None,
        }
    }

    /// Replaces the value of the named field, or appends the field if the
    /// entry does not have it yet.
    pub fn set_field(&mut self, name: String, value: FieldValue)
        ensures
            set_rel(old(self)@.fields, final(self)@.fields, name@, value@),
    {
        let ghost before = self@.fields;
        match self.find_field(&name) {
            Some(i) => {
                self.fields[i] = Field { name, value };
                proof {
                    assert(final(self)@.fields =~= before.update(
                        i as int,
                        final(self)@.fields[i as int],
                    ));
                }
            },
            None => {
                self.push_field(name, value);
            },
        }
    }
}

impl Entry {
    /// A structural copy whose model equals this entry's model.
    pub fn duplicate(&self) -> (r: Entry)
        ensures
            r@ == self@,
    {
        let mut fields: Vec<Field> = Vec::new();
        let mut i: usize = 0;
        while i < self.fields.len()
            invariant
                i <= self.fields.len(),
                self@.fields.len() == self.fields.len(),
                fields@.map_values(|f: Field| f@) == self@.fields.take(i as int),
            decreases self.fields.len() - i,
        {
            let f = &self.fields[i];
            let copy = Field { name: f.name.clone(), value: f.value.clone_value() };
            proof {
                assert(self@.fields[i as int] == self.fields@[i as int]@);
                assert(copy.name@ == self.fields@[i as int].name@);
                assert(copy.value@ == self.fields@[i as int].value@);
                assert(copy@ =~= self@.fields[i as int]);
            }
            let ghost before_vec = fields@;
            let ghost mapped = fields@.map_values(|f: Field| f@);
            fields.push(copy);
            proof {
                before_vec.lemma_push_map_commute(|f: Field| f@, copy);
                assert(fields@.map_values(|f: Field| f@) == mapped.push(copy@));
                assert(mapped.push(copy@) =~= self@.fields.take(i + 1 as int));
            }
            i = i + 1;
        }
        let r = Entry { fields };
        proof {
            assert(self@.fields.take(self@.fields.len() as int) =~= self@.fields);
            assert(r@ =~= self@);
        }
        r
    }
}

impl FieldValue {
    /// A structural copy whose model equals this value's model.
    pub fn clone_value(&self) -> (r: FieldValue)
        ensures
            r@ == self@,
    {
        match self {
            FieldValue::Text(s) => FieldValue::Text(s.clone()),
            FieldValue::Flag(b) => FieldValue::Flag(*b),
        }
    }
}

impl Document {
    /// A document with three empty collections.
    pub fn new() -> (r: Document)
        ensures
            r@.passwords.len() == 0,
            r@.identities.len() == 0,
            r@.cards.len() == 0,
    {
        Document { passwords: Vec::new(), identities: Vec::new(), cards: Vec::new() }
    }
}

} // verus!
