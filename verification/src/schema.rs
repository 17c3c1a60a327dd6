//! Schema resources: schemas stored in their own registry and referenced
//! by opaque handles, with the field lookups the host performs through a
//! handle-carrying view.

use vstd::prelude::*;
use crate::error::{CoreError, CoreResult, ErrorCode};
use crate::handles::{HandleId, HandleRegistry};
use crate::model::{FieldDef, SchemaData, spec_index_of_name, str_eq};

verus! {

/// Registry of native-owned schemas, one instance per process.
pub type SchemaRegistry = HandleRegistry<SchemaData>;

/// A fresh, empty schema registry.
pub fn new_schema_registry() -> (r: SchemaRegistry)
    ensures
        r.wf(),
        r@ == Map::<HandleId, SchemaData>::empty(),
{
    HandleRegistry::new()
}

/// Handle-carrying schema view, resolved against the schema registry on
/// each access.
#[derive(Debug, Clone, Copy, PartialEq, Eq, Structural)]
pub struct SchemaHandle {
    pub handle: HandleId,
}

impl SchemaHandle {
    /// The first field carrying `name`, as a copy.
    pub fn get_field(&self, reg: &SchemaRegistry, name: &str) -> (out: Option<FieldDef>)
        requires
            reg.wf(),
        ensures
            match out {
                Some(f) => reg@.contains_key(self.handle) && spec_index_of_name(
                    reg@[self.handle].fields@,
                    name@,
                ) is Some && f.model() == reg@[self.handle].fields@[crate::table::spec_sel(
                    reg@[self.handle].fields@,
                    name@,
                )].model(),
                None => !reg@.contains_key(self.handle) || spec_index_of_name(
                    reg@[self.handle].fields@,
                    name@,
                ) is None,
            },
    {
        let s = match reg.get(self.handle) {
            Some(s) => s,
            None => {
                return None;
            },
        };
        match s.index_of(name) {
            Some(i) => Some(s.fields[i].duplicate()),
            None => None,
        }
    }

    /// Position of the first field carrying `name`.
    pub fn get_field_index(&self, reg: &SchemaRegistry, name: &str) -> (out: Option<usize>)
        requires
            reg.wf(),
        ensures
            match out {
                Some(i) => reg@.contains_key(self.handle) && spec_index_of_name(
                    reg@[self.handle].fields@,
                    name@,
                ) == Some(i as int),
                None => !reg@.contains_key(self.handle) || spec_index_of_name(
                    reg@[self.handle].fields@,
                    name@,
                ) is None,
            },
    {
        let s = match reg.get(self.handle) {
            Some(s) => s,
            None => {
                return None;
            },
        };
        s.index_of(name)
    }

    /// Number of fields; a stale handle reads as 0.
    pub fn field_count(&self, reg: &SchemaRegistry) -> (r: usize)
        requires
            reg.wf(),
        ensures
            reg@.contains_key(self.handle) ==> r == reg@[self.handle].fields@.len(),
            !reg@.contains_key(self.handle) ==> r == 0,
    {
        match reg.get(self.handle) {
            Some(s) => s.fields.len(),
            None => 0,
        }
    }

    /// Copies of all fields, in order.
    pub fn fields(&self, reg: &SchemaRegistry) -> (out: Option<Vec<FieldDef>>)
        requires
            reg.wf(),
        ensures
            match out {
                Some(fs) => reg@.contains_key(self.handle) && fs@.len()
                    == reg@[self.handle].fields@.len() && forall|i: int|
                    0 <= i < fs@.len() ==> (#[trigger] fs@[i]).model()
                        == reg@[self.handle].fields@[i].model(),
                None => !reg@.contains_key(self.handle),
            },
    {
        let s = match reg.get(self.handle) {
            Some(s) => s,
            None => {
                return None;
            },
        };
        let dup = s.duplicate();
        proof {
            assert forall|i: int| 0 <= i < dup.fields@.len() implies (
            #[trigger] dup.fields@[i]).model() == s.fields@[i].model() by {
                assert(dup.models()[i] == s.models()[i]);
            }
        }
        Some(dup.fields)
    }

    /// Whether both handles resolve to structurally equal schemas: same
    /// fields, by name, logical type and nullability, in the same order.
    pub fn equals(&self, reg: &SchemaRegistry, other: &SchemaHandle) -> (r: bool)
        requires
            reg.wf(),
        ensures
            r == (reg@.contains_key(self.handle) && reg@.contains_key(other.handle)
                && reg@[self.handle].models() == reg@[other.handle].models()),
    {
        let s1 = match reg.get(self.handle) {
            Some(s) => s,
            None => {
                return false;
            },
        };
        let s2 = match reg.get(other.handle) {
            Some(s) => s,
            None => {
                return false;
            },
        };
        let n = s1.fields.len();
        if n != s2.fields.len() {
            proof {
                assert(s1.models().len() != s2.models().len());
            }
            return false;
        }
        let mut i: usize = 0;
        while i < n
            invariant
                reg@.contains_key(self.handle),
                reg@.contains_key(other.handle),
                *s1 == reg@[self.handle],
                *s2 == reg@[other.handle],
                n == s1.fields@.len() == s2.fields@.len(),
                i <= n,
                forall|j: int| 0 <= j < i ==> s1.models()[j] == s2.models()[j],
            decreases n - i,
        {
            let f1 = &s1.fields[i];
            let f2 = &s2.fields[i];
            if !str_eq(f1.name.as_str(), f2.name.as_str()) || f1.data_type.type_id()
                != f2.data_type.type_id() || f1.nullable != f2.nullable {
                proof {
                    assert(s1.models()[i as int] == s1.fields@[i as int].model());
                    assert(s2.models()[i as int] == s2.fields@[i as int].model());
                    assert(s1.models()[i as int] != s2.models()[i as int]);
                    assert(s1.models() != s2.models()) by {
                        if s1.models() == s2.models() {
                            assert(s1.models()[i as int] == s2.models()[i as int]);
                        }
                    }
                }
                return false;
            }
            proof {
                assert(s1.models()[i as int] == s2.models()[i as int]);
            }
            i = i + 1;
        }
        proof {
            assert(s1.models() =~= s2.models());
        }
        true
    }

    /// Free the referenced schema; the handle never resolves again.
    pub fn dispose(&self, reg: &mut SchemaRegistry)
        requires
            old(reg).wf(),
        ensures
            final(reg).wf(),
            final(reg)@ == old(reg)@.remove(self.handle),
            final(reg).next_handle() == old(reg).next_handle(),
    {
        let _ = reg.remove(self.handle);
    }
}

/// Store a schema built from fields and hand out its view.
pub fn create_schema(reg: &mut SchemaRegistry, fields: Vec<FieldDef>) -> (out: CoreResult<SchemaHandle>)
    requires
        old(reg).wf(),
    ensures
        final(reg).wf(),
        out is Ok <==> old(reg).next_handle() < crate::handles::HandleId::MAX,
        match out {
            Ok(s) => final(reg)@.contains_key(s.handle) && !old(reg)@.contains_key(s.handle)
                && final(reg)@ == old(reg)@.insert(s.handle, final(reg)@[s.handle])
                && final(reg)@[s.handle].fields@ == fields@,
            Err(e) => final(reg)@ == old(reg)@ && e.code == ErrorCode::Memory,
        },
{
    create_schema_from_data(reg, SchemaData::new(fields))
}

/// Store an existing schema value and hand out its view.
pub fn create_schema_from_data(reg: &mut SchemaRegistry, schema: SchemaData) -> (out: CoreResult<
    SchemaHandle,
>)
    requires
        old(reg).wf(),
    ensures
        final(reg).wf(),
        out is Ok <==> old(reg).next_handle() < crate::handles::HandleId::MAX,
        match out {
            Ok(s) => final(reg)@.contains_key(s.handle) && !old(reg)@.contains_key(s.handle)
                && final(reg)@ == old(reg)@.insert(s.handle, final(reg)@[s.handle])
                && final(reg)@[s.handle].fields@ == schema.fields@,
            Err(e) => final(reg)@ == old(reg)@ && e.code == ErrorCode::Memory,
        },
{
    if !reg.can_issue() {
        return Err(CoreError::memory(String::from_str("Handle space exhausted")));
    }
    let h = reg.insert(schema);
    Ok(SchemaHandle { handle: h })
}

} // verus!
