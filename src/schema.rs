use vstd::prelude::*;
use crate::dialect::DbType;

verus! {

/// The name that inflector gives a type's table: its name in snake case,
/// with the last word in the plural.
pub uninterp spec fn table_case_of(s: Seq<char>) -> Seq<char>;

/// A name in upper case with words joined by underscores, as inflector
/// writes it.
pub uninterp spec fn screaming_snake_of(s: Seq<char>) -> Seq<char>;

/// Relies on inflector's `to_table_case`, whose result depends on the
/// characters of its argument alone.
#[verifier::external_body]
fn table_case(s: &str) -> (r: String)
    ensures
        r@ == table_case_of(s@),
{
    inflector::cases::tablecase::to_table_case(s)
}

/// Relies on inflector's `to_screaming_snake_case`, whose result depends on
/// the characters of its argument alone.
#[verifier::external_body]
fn screaming_snake_case(s: &str) -> (r: String)
    ensures
        r@ == screaming_snake_of(s@),
{
    inflector::cases::screamingsnakecase::to_screaming_snake_case(s)
}

/// One field of a record type, with the annotations that the schema reads.
#[derive(Clone, Debug, PartialEq, Eq)]
pub struct FieldDescriptor {
    pub name: String,
    /// Marks the identity column.
    pub id: bool,
    /// The store assigns the identity on insert.
    pub auto_increment: bool,
    /// Left out of the insert statement.
    pub ignore_insert: bool,
    /// Left out of the update statement.
    pub ignore_update: bool,
    /// Marks the soft-delete column, with the SQL expression that a delete
    /// writes into it.
    pub deleted_with: Option<String>,
}

/// Why a record type's field list yields no schema.
#[derive(Clone, Copy, Debug, PartialEq, Eq, Structural)]
pub enum SchemaError {
    /// The record type has no fields.
    NoFields,
    /// The database tag names no supported dialect.
    UnknownDatabase,
    /// More than one field carries the soft-delete annotation.
    SeveralSoftDeleteFields,
}

/// The indices below `n` that `keep` holds of, in increasing order.
pub open spec fn pick(n: nat, keep: spec_fn(int) -> bool) -> Seq<usize>
    decreases n,
{
    if n == 0 {
        Seq::empty()
    } else if keep(n - 1) {
        pick((n - 1) as nat, keep).push((n - 1) as usize)
    } else {
        pick((n - 1) as nat, keep)
    }
}

/// What `pick` selects: exactly the indices below `n` that `keep` holds
/// of, each once, in increasing order.
pub proof fn lemma_pick(n: nat, keep: spec_fn(int) -> bool)
    requires
        n <= usize::MAX,
    ensures
        forall|i: int| 0 <= i < pick(n, keep).len() ==> (#[trigger] pick(n, keep)[i]) < n && keep(
            pick(n, keep)[i] as int,
        ),
        forall|i: int, j: int|
            0 <= i < j < pick(n, keep).len() ==> (#[trigger] pick(n, keep)[i]) < (#[trigger] pick(
                n,
                keep,
            )[j]),
        forall|k: int| 0 <= k < n && keep(k) ==> #[trigger] pick(n, keep).contains(k as usize),
    decreases n,
{
    if n > 0 {
        let m = (n - 1) as nat;
        lemma_pick(m, keep);
        if keep(m as int) {
            let p = pick(m, keep);
            let q = pick(n, keep);
            assert(q == p.push(m as usize));
            assert forall|i: int| 0 <= i < q.len() implies (#[trigger] q[i]) < n && keep(q[i] as int) by {
                if i < p.len() {
                    assert(q[i] == p[i]);
                }
            }
            assert forall|i: int, j: int| 0 <= i < j < q.len() implies (#[trigger] q[i]) < (#[trigger] q[j]) by {
                assert(q[i] == p[i]);
                if j < p.len() {
                    assert(q[j] == p[j]);
                }
            }
            assert forall|k: int| 0 <= k < n && keep(k) implies #[trigger] pick(n, keep).contains(
                k as usize,
            ) by {
                if k == m {
                    assert(pick(n, keep)[p.len() as int] == m as usize);
                } else {
                    assert(p.contains(k as usize));
                    let w = choose|w: int| 0 <= w < p.len() && p[w] == k as usize;
                    assert(pick(n, keep)[w] == k as usize);
                }
            }
        } else {
            assert(pick(n, keep) == pick(m, keep));
        }
    }
}

/// `i` is the identity field of `fs`: the first field marked as identity,
/// or the first field where none is marked.
pub open spec fn is_id_of(fs: Seq<FieldDescriptor>, i: int) -> bool {
    &&& 0 <= i < fs.len()
    &&& if exists|k: int| 0 <= k < fs.len() && #[trigger] fs[k].id {
        fs[i].id && forall|j: int| 0 <= j < i ==> !(#[trigger] fs[j].id)
    } else {
        i == 0
    }
}

/// The fields that the insert statement names: all but an auto-increment
/// identity and those ignored on insert.
pub open spec fn insert_keep(fs: Seq<FieldDescriptor>, id: int, auto: bool) -> spec_fn(int) -> bool {
    |k: int| !fs[k].ignore_insert && !(auto && k == id)
}

/// The fields that the update statement sets: all but the identity and
/// those ignored on update.
pub open spec fn update_keep(fs: Seq<FieldDescriptor>, id: int) -> spec_fn(int) -> bool {
    |k: int| k != id && !fs[k].ignore_update
}

/// The fields that carry the soft-delete annotation.
pub open spec fn soft_keep(fs: Seq<FieldDescriptor>) -> spec_fn(int) -> bool {
    |k: int| fs[k].deleted_with is Some
}

pub open spec fn soft_fields(fs: Seq<FieldDescriptor>) -> Seq<usize> {
    pick(fs.len(), soft_keep(fs))
}

/// Every index that a well-formed schema holds names one of its fields.
pub proof fn lemma_indices_in_range(c: &Config)
    requires
        c.wf(),
    ensures
        forall|i: int| 0 <= i < c.insert_fields@.len() ==> (#[trigger] c.insert_fields@[i]) < c.fields@.len(),
        forall|i: int| 0 <= i < c.update_fields@.len() ==> (#[trigger] c.update_fields@[i]) < c.fields@.len(),
        c.delete_field is Some ==> c.delete_field->Some_0 < c.fields@.len()
            && c.fields@[c.delete_field->Some_0 as int].deleted_with is Some,
{
    let fs = c.fields@;
    assert(fs.len() == c.fields.len());
    lemma_pick(fs.len(), insert_keep(fs, c.id_index as int, c.id_auto_increment));
    lemma_pick(fs.len(), update_keep(fs, c.id_index as int));
    lemma_pick(fs.len(), soft_keep(fs));
    if c.delete_field is Some {
        assert(soft_fields(fs)[0] < fs.len());
    }
}

/// A record type resolved into the facts its statements are built from.
#[derive(Debug)]
pub struct Config {
    /// The record type's name.
    pub ident: String,
    /// The fields, in declaration order.
    pub fields: Vec<FieldDescriptor>,
    pub db_ty: DbType,
    /// The name of the static that holds the compiled schema.
    pub model_schema_ident: String,
    pub table_name: String,
    /// Index of the identity field.
    pub id_index: usize,
    pub id_auto_increment: bool,
    /// Indices of the fields that the insert statement names, in order.
    pub insert_fields: Vec<usize>,
    /// Indices of the fields that the update statement sets, in order.
    pub update_fields: Vec<usize>,
    /// Index of the soft-delete field, if there is one.
    pub delete_field: Option<usize>,
}

impl Config {
    /// The indices agree with the fields: the identity is resolved, the
    /// insert and update sets are exactly the fields they keep, in order, and
    /// there is at most one soft-delete field.
    pub open spec fn wf(&self) -> bool {
        let fs = self.fields@;
        let id = self.id_index as int;
        &&& is_id_of(fs, id)
        &&& self.id_auto_increment == fs[id].auto_increment
        &&& self.insert_fields@ == pick(fs.len(), insert_keep(fs, id, self.id_auto_increment))
        &&& self.update_fields@ == pick(fs.len(), update_keep(fs, id))
        &&& soft_fields(fs).len() <= 1
        &&& self.delete_field == if soft_fields(fs).len() == 0 {
            None::<usize>
        } else {
            Some(soft_fields(fs)[0])
        }
    }

    /// Resolves a record type, named `ident`, with the given fields and
    /// database tag.
    pub fn new(ident: &str, fields: Vec<FieldDescriptor>, database: Option<&str>) -> (r: Result<Config, SchemaError>)
        ensures
            fields@.len() == 0 ==> r == Err::<Config, SchemaError>(SchemaError::NoFields),
            fields@.len() > 0 && DbType::for_tag(database) is None ==> r == Err::<Config, SchemaError>(SchemaError::UnknownDatabase),
            fields@.len() > 0 && DbType::for_tag(database) is Some && soft_fields(fields@).len() > 1
                ==> r == Err::<Config, SchemaError>(SchemaError::SeveralSoftDeleteFields),
            fields@.len() > 0 && DbType::for_tag(database) is Some && soft_fields(fields@).len() <= 1 ==> {
                &&& r is Ok
                &&& r->Ok_0.wf()
                &&& r->Ok_0.fields@ == fields@
                &&& Some(r->Ok_0.db_ty) == DbType::for_tag(database)
                &&& r->Ok_0.ident@ == ident@
                &&& r->Ok_0.table_name@ == table_case_of(ident@)
                &&& r->Ok_0.model_schema_ident@ == screaming_snake_of(ident@) + "_SCHEMA"@
            },
    {
        let n = fields.len();
        if n == 0 {
            return Err(SchemaError::NoFields);
        }
        let db_ty = match DbType::new(database) {
            Some(d) => d,
            None => {
                return Err(SchemaError::UnknownDatabase);
            },
        };
        let ghost fs = fields@;
        let mut id_index: usize = 0;
        let mut found = false;
        let mut i: usize = 0;
        while i < n
            invariant
                fs == fields@,
                n == fs.len(),
                i <= n,
                found ==> id_index < i && fs[id_index as int].id && forall|j: int|
                    0 <= j < id_index ==> !(#[trigger] fs[j].id),
                !found ==> id_index == 0 && forall|j: int| 0 <= j < i ==> !(#[trigger] fs[j].id),
            decreases n - i,
        {
            if !found && fields[i].id {
                id_index = i;
                found = true;
            }
            i = i + 1;
        }
        let id_auto_increment = fields[id_index].auto_increment;
        let ghost id = id_index as int;
        let mut insert_fields: Vec<usize> = Vec::new();
        let mut update_fields: Vec<usize> = Vec::new();
        let mut soft: Vec<usize> = Vec::new();
        let mut k: usize = 0;
        while k < n
            invariant
                fs == fields@,
                n == fs.len(),
                k <= n,
                id_index < n,
                id == id_index as int,
                insert_fields@ == pick(k as nat, insert_keep(fs, id, id_auto_increment)),
                update_fields@ == pick(k as nat, update_keep(fs, id)),
                soft@ == pick(k as nat, soft_keep(fs)),
            decreases n - k,
        {
            let f = &fields[k];
            if !f.ignore_insert && !(id_auto_increment && k == id_index) {
                insert_fields.push(k);
            }
            if k != id_index && !f.ignore_update {
                update_fields.push(k);
            }
            if f.deleted_with.is_some() {
                soft.push(k);
            }
            k = k + 1;
        }
        if soft.len() > 1 {
            return Err(SchemaError::SeveralSoftDeleteFields);
        }
        let delete_field = if soft.len() == 0 {
            None
        } else {
            Some(soft[0])
        };
        let table_name = table_case(ident);
        let mut model_schema_ident = screaming_snake_case(ident);
        model_schema_ident.append("_SCHEMA");
        let ident = String::from_str(ident);
        Ok(Config {
            ident,
            fields,
            db_ty,
            model_schema_ident,
            table_name,
            id_index,
            id_auto_increment,
            insert_fields,
            update_fields,
            delete_field,
        })
    }
}

} // verus!
