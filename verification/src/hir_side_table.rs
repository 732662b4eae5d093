//! Names of HIR entities, kept beside the HIR so that renderers and diagnostics can show
//! source names instead of numeric ids.

use vstd::prelude::*;
use std::collections::HashMap;
use crate::ids::{ChoiceId, FieldId, FunctionId, InternedString, LocalId, StructId};
use crate::string_table::StringTable;

verus! {

broadcast use vstd::std_specs::hash::group_hash_axioms;

/// Interned source names bound to locals, functions, structs, fields and choices, each
/// keyed by the entity's numeric id.
#[derive(Debug)]
pub struct HirSideTable {
    local_names: HashMap<u32, InternedString>,
    function_names: HashMap<u32, InternedString>,
    struct_names: HashMap<u32, InternedString>,
    field_names: HashMap<u32, InternedString>,
    choice_names: HashMap<u32, InternedString>,
}

/// The name that `names` binds to `id`, resolved in `table`, if it is bound to a handle
/// that the table holds.
pub open spec fn resolved_name(names: Map<u32, InternedString>, table: Seq<Seq<char>>, id: u32) -> Option<Seq<char>> {
    if names.contains_key(id) && (names[id] as int) < table.len() {
        Some(table[names[id] as int])
    } else {
        None
    }
}

impl HirSideTable {
    /// Names bound to locals, by local id.
    pub closed spec fn local_names(&self) -> Map<u32, InternedString> {
        self.local_names@
    }

    /// Names bound to functions, by function id.
    pub closed spec fn function_names(&self) -> Map<u32, InternedString> {
        self.function_names@
    }

    /// Names bound to structs, by struct id.
    pub closed spec fn struct_names(&self) -> Map<u32, InternedString> {
        self.struct_names@
    }

    /// Names bound to fields, by field id.
    pub closed spec fn field_names(&self) -> Map<u32, InternedString> {
        self.field_names@
    }

    /// Names bound to choices, by choice id.
    pub closed spec fn choice_names(&self) -> Map<u32, InternedString> {
        self.choice_names@
    }

    /// A side table with no names bound.
    pub fn new() -> (t: Self)
        ensures
            t.local_names() == Map::<u32, InternedString>::empty(),
            t.function_names() == Map::<u32, InternedString>::empty(),
            t.struct_names() == Map::<u32, InternedString>::empty(),
            t.field_names() == Map::<u32, InternedString>::empty(),
            t.choice_names() == Map::<u32, InternedString>::empty(),
    {
        HirSideTable {
            local_names: HashMap::new(),
            function_names: HashMap::new(),
            struct_names: HashMap::new(),
            field_names: HashMap::new(),
            choice_names: HashMap::new(),
        }
    }

    /// Binds `name` to the local `id`, replacing an earlier binding.
    pub fn bind_local_name(&mut self, id: LocalId, name: InternedString)
        ensures
            final(self).local_names() == old(self).local_names().insert(id.0, name),
            final(self).function_names() == old(self).function_names(),
            final(self).struct_names() == old(self).struct_names(),
            final(self).field_names() == old(self).field_names(),
            final(self).choice_names() == old(self).choice_names(),
    {
        self.local_names.insert(id.0, name);
    }

    /// Binds `name` to the function `id`, replacing an earlier binding.
    pub fn bind_function_name(&mut self, id: FunctionId, name: InternedString)
        ensures
            final(self).local_names() == old(self).local_names(),
            final(self).function_names() == old(self).function_names().insert(id.0, name),
            final(self).struct_names() == old(self).struct_names(),
            final(self).field_names() == old(self).field_names(),
            final(self).choice_names() == old(self).choice_names(),
    {
        self.function_names.insert(id.0, name);
    }

    /// Binds `name` to the struct `id`, replacing an earlier binding.
    pub fn bind_struct_name(&mut self, id: StructId, name: InternedString)
        ensures
            final(self).local_names() == old(self).local_names(),
            final(self).function_names() == old(self).function_names(),
            final(self).struct_names() == old(self).struct_names().insert(id.0, name),
            final(self).field_names() == old(self).field_names(),
            final(self).choice_names() == old(self).choice_names(),
    {
        self.struct_names.insert(id.0, name);
    }

    /// Binds `name` to the field `id`, replacing an earlier binding.
    pub fn bind_field_name(&mut self, id: FieldId, name: InternedString)
        ensures
            final(self).local_names() == old(self).local_names(),
            final(self).function_names() == old(self).function_names(),
            final(self).struct_names() == old(self).struct_names(),
            final(self).field_names() == old(self).field_names().insert(id.0, name),
            final(self).choice_names() == old(self).choice_names(),
    {
        self.field_names.insert(id.0, name);
    }

    /// Binds `name` to the choice `id`, replacing an earlier binding.
    pub fn bind_choice_name(&mut self, id: ChoiceId, name: InternedString)
        ensures
            final(self).local_names() == old(self).local_names(),
            final(self).function_names() == old(self).function_names(),
            final(self).struct_names() == old(self).struct_names(),
            final(self).field_names() == old(self).field_names(),
            final(self).choice_names() == old(self).choice_names().insert(id.0, name),
    {
        self.choice_names.insert(id.0, name);
    }

    /// Resolves the name bound under `id` in one of the name maps.
    fn resolve_in<'a>(names: &HashMap<u32, InternedString>, id: u32, table: &'a StringTable) -> (r: Option<&'a str>)
        ensures
            match r {
                Some(s) => resolved_name(names@, table@, id) == Some(s@),
                None => resolved_name(names@, table@, id) is None,
            },
    {
        match names.get(&id) {
            Some(name) => {
                if (*name as usize) < table.len() {
                    Some(table.resolve(*name))
                } else {
                    None
                }
            },
            None => None,
        }
    }

    /// The source name of the local `id`, if one is bound and the table holds it.
    pub fn resolve_local_name<'a>(&self, id: LocalId, table: &'a StringTable) -> (r: Option<&'a str>)
        ensures
            match r {
                Some(s) => resolved_name(self.local_names(), table@, id.0) == Some(s@),
                None => resolved_name(self.local_names(), table@, id.0) is None,
            },
    {
        Self::resolve_in(&self.local_names, id.0, table)
    }

    /// The source name of the function `id`, if one is bound and the table holds it.
    pub fn resolve_function_name<'a>(&self, id: FunctionId, table: &'a StringTable) -> (r: Option<&'a str>)
        ensures
            match r {
                Some(s) => resolved_name(self.function_names(), table@, id.0) == Some(s@),
                None => resolved_name(self.function_names(), table@, id.0) is None,
            },
    {
        Self::resolve_in(&self.function_names, id.0, table)
    }

    /// The source name of the struct `id`, if one is bound and the table holds it.
    pub fn resolve_struct_name<'a>(&self, id: StructId, table: &'a StringTable) -> (r: Option<&'a str>)
        ensures
            match r {
                Some(s) => resolved_name(self.struct_names(), table@, id.0) == Some(s@),
                None => resolved_name(self.struct_names(), table@, id.0) is None,
            },
    {
        Self::resolve_in(&self.struct_names, id.0, table)
    }

    /// The source name of the field `id`, if one is bound and the table holds it.
    pub fn resolve_field_name<'a>(&self, id: FieldId, table: &'a StringTable) -> (r: Option<&'a str>)
        ensures
            match r {
                Some(s) => resolved_name(self.field_names(), table@, id.0) == Some(s@),
                None => resolved_name(self.field_names(), table@, id.0) is None,
            },
    {
        Self::resolve_in(&self.field_names, id.0, table)
    }

    /// The source name of the choice `id`, if one is bound and the table holds it.
    pub fn resolve_choice_name<'a>(&self, id: ChoiceId, table: &'a StringTable) -> (r: Option<&'a str>)
        ensures
            match r {
                Some(s) => resolved_name(self.choice_names(), table@, id.0) == Some(s@),
                None => resolved_name(self.choice_names(), table@, id.0) is None,
            },
    {
        Self::resolve_in(&self.choice_names, id.0, table)
    }
}

/// Law: a name bound to a local resolves to that name's text, as long as the table holds it.
pub proof fn lemma_bind_then_resolve(before: HirSideTable, after: HirSideTable, table: Seq<Seq<char>>, id: LocalId, name: InternedString)
    requires
        after.local_names() == before.local_names().insert(id.0, name),
        (name as int) < table.len(),
    ensures
        resolved_name(after.local_names(), table, id.0) == Some(table[name as int]),
{
}

} // verus!
