//! The composition rule: the width of a record is the sum of the widths of
//! its declared fields, each looked up under the field's declared type.

use crate::registry::Registry;
use crate::width::DISCRIMINATOR_LEN;
use vstd::prelude::*;

verus! {

/// One declared field of a record: its name and the name of its type.
#[derive(Clone, Debug)]
pub struct Field {
    pub name: String,
    pub ty: String,
}

/// What a type definition looks like to the composer.
#[derive(Clone, Debug)]
pub enum Definition {
    /// A record: a fixed list of fields in declaration order. A record
    /// without fields has an empty list.
    Struct(Vec<Field>),
    /// A type with several variants. It has no single field list.
    Enum,
    /// A type whose fields overlap. It has no single field list.
    Union,
}

/// Why a definition has no width.
#[derive(Clone, Copy, Debug, PartialEq, Eq, Structural)]
pub enum ComposeError {
    /// The type of a field is not sizeable. `field` is the position of the
    /// first such field in declaration order.
    MissingCapability { field: usize },
    /// The definition is not a record.
    Malformed,
}

/// The declared type of each field, in declaration order.
pub open spec fn declared_types(fields: Seq<Field>) -> Seq<Seq<char>> {
    fields.map_values(|f: Field| f.ty@)
}

/// The width that a table gives a type name; nothing for an unknown name.
pub open spec fn width_in(table: Map<Seq<char>, nat>, ty: Seq<char>) -> nat {
    if table.contains_key(ty) {
        table[ty]
    } else {
        0
    }
}

/// The sum of the widths of a list of field types: one term per field, none
/// left out, starting from nothing.
pub open spec fn record_width(table: Map<Seq<char>, nat>, types: Seq<Seq<char>>) -> nat
    decreases types.len(),
{
    if types.len() == 0 {
        0
    } else {
        record_width(table, types.drop_last()) + width_in(table, types.last())
    }
}

/// Every field type is sizeable.
pub open spec fn all_sized(table: Map<Seq<char>, nat>, types: Seq<Seq<char>>) -> bool {
    forall|i: int| 0 <= i < types.len() ==> table.contains_key(#[trigger] types[i])
}

/// Field `i` is the first whose type is not sizeable.
pub open spec fn first_unsized(table: Map<Seq<char>, nat>, types: Seq<Seq<char>>, i: int) -> bool {
    &&& 0 <= i < types.len()
    &&& !table.contains_key(types[i])
    &&& forall|j: int| 0 <= j < i ==> table.contains_key(#[trigger] types[j])
}

impl Definition {
    /// Whether the definition is a record.
    pub open spec fn is_record(&self) -> bool {
        self is Struct
    }

    /// The declared field types of a record; none for any other definition.
    pub open spec fn types(&self) -> Seq<Seq<char>> {
        match *self {
            Definition::Struct(fields) => declared_types(fields@),
            _ => Seq::empty(),
        }
    }
}

/// A prefix of a field list is no wider than the whole list.
pub proof fn lemma_prefix_width(table: Map<Seq<char>, nat>, types: Seq<Seq<char>>, n: int)
    requires
        0 <= n <= types.len(),
    ensures
        record_width(table, types.take(n)) <= record_width(table, types),
    decreases types.len(),
{
    if n == types.len() {
        assert(types.take(n) =~= types);
    } else {
        assert(types.drop_last().take(n) =~= types.take(n));
        lemma_prefix_width(table, types.drop_last(), n);
    }
}

/// The position of the first field whose type the registry does not know.
fn first_unsized_field(fields: &Vec<Field>, registry: &Registry) -> (r: Option<usize>)
    ensures
        match r {
            Some(i) => first_unsized(registry@, declared_types(fields@), i as int),
            None => all_sized(registry@, declared_types(fields@)),
        },
{
    let ghost types = declared_types(fields@);
    let mut i: usize = 0;
    while i < fields.len()
        invariant
            i <= fields.len(),
            types == declared_types(fields@),
            forall|j: int| 0 <= j < i ==> registry@.contains_key(#[trigger] types[j]),
        decreases fields.len() - i,
    {
        if registry.lookup(&fields[i].ty).is_none() {
            return Some(i);
        }
        i += 1;
    }
    None
}

/// Computes the width of a definition from the widths in the registry.
///
/// A record gets the sum of its fields' widths. A record with a field whose
/// type is not registered gets no width at all, and the error names the first
/// such field. A definition that is not a record is malformed.
pub fn compose(def: &Definition, registry: &Registry) -> (r: Result<usize, ComposeError>)
    requires
        def.is_record() && all_sized(registry@, def.types()) ==> record_width(
            registry@,
            def.types(),
        ) <= usize::MAX,
    ensures
        match r {
            Ok(w) => def.is_record() && all_sized(registry@, def.types()) && w == record_width(
                registry@,
                def.types(),
            ),
            Err(ComposeError::MissingCapability { field }) => def.is_record() && first_unsized(
                registry@,
                def.types(),
                field as int,
            ),
            Err(ComposeError::Malformed) => !def.is_record(),
        },
{
    match def {
        Definition::Struct(fields) => {
            if let Some(field) = first_unsized_field(fields, registry) {
                return Err(ComposeError::MissingCapability { field });
            }
            let ghost types = declared_types(fields@);
            let mut total: usize = 0;
            let mut i: usize = 0;
            while i < fields.len()
                invariant
                    i <= fields.len(),
                    types == declared_types(fields@),
                    all_sized(registry@, types),
                    record_width(registry@, types) <= usize::MAX,
                    total == record_width(registry@, types.take(i as int)),
                decreases fields.len() - i,
            {
                proof {
                    assert(registry@.contains_key(types[i as int]));
                }
                let width = registry.lookup(&fields[i].ty).unwrap();
                proof {
                    assert(types.take(i + 1).drop_last() =~= types.take(i as int));
                    lemma_prefix_width(registry@, types, i + 1);
                }
                total = total + width;
                i += 1;
            }
            proof {
                assert(types.take(i as int) =~= types);
            }
            Ok(total)
        },
        _ => Err(ComposeError::Malformed),
    }
}

/// Computes the width of a definition with the discriminator in front of it.
///
/// It fails exactly where [`compose`] fails, and with the same error.
pub fn compose_padded(def: &Definition, registry: &Registry) -> (r: Result<usize, ComposeError>)
    requires
        def.is_record() && all_sized(registry@, def.types()) ==> DISCRIMINATOR_LEN + record_width(
            registry@,
            def.types(),
        ) <= usize::MAX,
    ensures
        match r {
            Ok(w) => def.is_record() && all_sized(registry@, def.types()) && w
                == DISCRIMINATOR_LEN + record_width(registry@, def.types()),
            Err(ComposeError::MissingCapability { field }) => def.is_record() && first_unsized(
                registry@,
                def.types(),
                field as int,
            ),
            Err(ComposeError::Malformed) => !def.is_record(),
        },
{
    match compose(def, registry) {
        Ok(width) => Ok(DISCRIMINATOR_LEN + width),
        Err(e) => Err(e),
    }
}

} // verus!
