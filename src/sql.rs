use vstd::prelude::*;
use crate::schema::Config;

verus! {

/// `parts` joined with ", " between each two.
pub open spec fn join(parts: Seq<Seq<char>>) -> Seq<char>
    decreases parts.len(),
{
    if parts.len() == 0 {
        Seq::empty()
    } else if parts.len() == 1 {
        parts[0]
    } else {
        join(parts.drop_last()) + ", "@ + parts.last()
    }
}

pub open spec fn views(v: Seq<String>) -> Seq<Seq<char>> {
    v.map_values(|s: String| s@)
}

pub proof fn lemma_views_push(v: Seq<String>, s: String)
    ensures
        views(v.push(s)) == views(v).push(s@),
{
    assert(views(v.push(s)) =~= views(v).push(s@));
}

/// Joins the strings with ", " between each two.
pub fn join_parts(parts: &Vec<String>) -> (r: String)
    ensures
        r@ == join(views(parts@)),
{
    let mut r = String::new();
    let mut i: usize = 0;
    while i < parts.len()
        invariant
            i <= parts@.len(),
            r@ == join(views(parts@).subrange(0, i as int)),
        decreases parts@.len() - i,
    {
        let ghost before = r@;
        if i > 0 {
            r.append(", ");
        }
        r.append(parts[i].as_str());
        proof {
            let all = views(parts@);
            let next = all.subrange(0, i + 1);
            assert(next.drop_last() =~= all.subrange(0, i as int));
            assert(next.last() == parts@[i as int]@);
            if i == 0 {
                assert(before =~= Seq::<char>::empty());
                assert(r@ =~= next[0]);
            }
        }
        i = i + 1;
    }
    proof {
        assert(views(parts@).subrange(0, parts@.len() as int) =~= views(parts@));
    }
    r
}

/// The five statements of a record type.
#[derive(Debug)]
pub struct SqlQueries {
    pub select_sql: String,
    pub select_by_id_sql: String,
    pub insert_sql: String,
    pub update_by_id_sql: String,
    pub delete_by_id_sql: String,
}

impl Config {
    pub open spec fn q(&self, s: Seq<char>) -> Seq<char> {
        self.db_ty.quoted(s)
    }

    pub open spec fn name_of(&self, k: int) -> Seq<char> {
        self.fields@[k].name@
    }

    /// The quoted table name.
    pub open spec fn table_spec(&self) -> Seq<char> {
        self.q(self.table_name@)
    }

    /// The column of field `k`, qualified by the table.
    pub open spec fn qualified(&self, k: int) -> Seq<char> {
        self.table_spec() + "."@ + self.q(self.name_of(k))
    }

    pub open spec fn id_column_spec(&self) -> Seq<char> {
        self.qualified(self.id_index as int)
    }

    /// Every column, qualified, in declaration order.
    pub open spec fn columns_spec(&self) -> Seq<Seq<char>> {
        Seq::new(self.fields@.len(), |k: int| self.qualified(k))
    }

    pub open spec fn insert_columns_spec(&self) -> Seq<Seq<char>> {
        self.insert_fields@.map_values(|k: usize| self.q(self.name_of(k as int)))
    }

    pub open spec fn insert_binds_spec(&self) -> Seq<Seq<char>> {
        Seq::new(self.insert_fields@.len(), |k: int| "?"@)
    }

    pub open spec fn update_sets_spec(&self) -> Seq<Seq<char>> {
        self.update_fields@.map_values(|k: usize| self.q(self.name_of(k as int)) + " = ?"@)
    }

    /// The quoted soft-delete column.
    pub open spec fn deleted_column(&self) -> Seq<char> {
        self.q(self.name_of(self.delete_field->Some_0 as int))
    }

    /// The expression that a delete writes into the soft-delete column.
    pub open spec fn deleted_expr(&self) -> Seq<char> {
        self.fields@[self.delete_field->Some_0 as int].deleted_with->Some_0@
    }

    /// The select-all statement without a soft-delete predicate.
    pub open spec fn select_stem(&self) -> Seq<char> {
        "SELECT "@ + join(self.columns_spec()) + " FROM "@ + self.table_spec()
    }

    /// The select-by-id statement up to its identity predicate.
    pub open spec fn select_by_id_stem(&self) -> Seq<char> {
        self.select_stem() + " WHERE "@ + self.id_column_spec() + " = ?"@
    }

    /// The update-by-id statement up to its identity predicate.
    pub open spec fn update_stem(&self) -> Seq<char> {
        "UPDATE "@ + self.table_spec() + " SET "@ + join(self.update_sets_spec()) + " WHERE "@
            + self.id_column_spec() + " = ?"@
    }

    pub open spec fn select_sql_spec(&self) -> Seq<char> {
        match self.delete_field {
            Some(_) => self.select_stem() + " WHERE "@ + self.deleted_column() + " IS NULL"@,
            None => self.select_stem(),
        }
    }

    pub open spec fn select_by_id_sql_spec(&self) -> Seq<char> {
        match self.delete_field {
            Some(_) => self.select_by_id_stem() + " AND "@ + self.deleted_column() + " IS NULL"@ + " LIMIT 1"@,
            None => self.select_by_id_stem() + " LIMIT 1"@,
        }
    }

    pub open spec fn insert_sql_spec(&self) -> Seq<char> {
        "INSERT INTO "@ + self.table_spec() + " ("@ + join(self.insert_columns_spec()) + ") VALUES ("@
            + join(self.insert_binds_spec()) + ")"@
    }

    pub open spec fn update_sql_spec(&self) -> Seq<char> {
        match self.delete_field {
            Some(_) => self.update_stem() + " AND "@ + self.deleted_column() + " IS NULL"@,
            None => self.update_stem(),
        }
    }

    pub open spec fn delete_sql_spec(&self) -> Seq<char> {
        match self.delete_field {
            Some(_) => "UPDATE "@ + self.table_spec() + " SET "@ + self.deleted_column() + " = "@
                + self.deleted_expr() + " WHERE "@ + self.id_column_spec() + " = ? AND "@
                + self.deleted_column() + " IS NULL"@,
            None => "DELETE FROM "@ + self.table_spec() + " WHERE "@ + self.id_column_spec() + " = ?"@,
        }
    }

    /// Quotes an identifier as the record type's dialect does.
    pub fn quote_ident(&self, ident: &str) -> (r: String)
        ensures
            r@ == self.q(ident@),
    {
        self.db_ty.quote_ident(ident)
    }

    /// The name of the soft-delete field, if there is one.
    pub fn delete_ident(&self) -> (r: Option<String>)
        requires
            self.wf(),
        ensures
            r is Some == self.delete_field is Some,
            r is Some ==> r->Some_0@ == self.name_of(self.delete_field->Some_0 as int),
    {
        proof {
            crate::schema::lemma_indices_in_range(self);
        }
        match self.delete_field {
            Some(d) => Some(self.fields[d].name.clone()),
            None => None,
        }
    }
}

/// Every column of the record type, qualified by the quoted table name,
/// in declaration order and joined by ", ".
pub fn column_list(config: &Config, table_name: &String) -> (r: String)
    requires
        table_name@ == config.table_spec(),
    ensures
        r@ == join(config.columns_spec()),
{
    let mut parts: Vec<String> = Vec::new();
    let mut k: usize = 0;
    while k < config.fields.len()
        invariant
            k <= config.fields@.len(),
            table_name@ == config.table_spec(),
            views(parts@) =~= config.columns_spec().subrange(0, k as int),
        decreases config.fields@.len() - k,
    {
        let mut part = table_name.clone();
        part.append(".");
        let column = config.quote_ident(config.fields[k].name.as_str());
        part.append(column.as_str());
        let ghost prev_parts = parts@;
        parts.push(part);
        proof {
            lemma_views_push(prev_parts, parts@.last());
            assert(views(parts@) =~= config.columns_spec().subrange(0, k + 1));
        }
        k = k + 1;
    }
    proof {
        assert(config.columns_spec().subrange(0, config.fields@.len() as int) =~= config.columns_spec());
    }
    join_parts(&parts)
}

/// The select-all and select-by-id statements.
pub fn build_select_sql(config: &Config, table_name: &String, id_column: &String) -> (r: (String, String))
    requires
        config.wf(),
        table_name@ == config.table_spec(),
        id_column@ == config.id_column_spec(),
    ensures
        r.0@ == config.select_sql_spec(),
        r.1@ == config.select_by_id_sql_spec(),
{
    let column_list = column_list(config, table_name);
    let mut base = String::from_str("SELECT ");
    base.append(column_list.as_str());
    base.append(" FROM ");
    base.append(table_name.as_str());
    let mut select_by_id_sql = base.clone();
    select_by_id_sql.append(" WHERE ");
    select_by_id_sql.append(id_column.as_str());
    select_by_id_sql.append(" = ?");
    match config.delete_ident() {
        Some(ident) => {
            let deleted = config.quote_ident(ident.as_str());
            let mut select_sql = base;
            select_sql.append(" WHERE ");
            select_sql.append(deleted.as_str());
            select_sql.append(" IS NULL");
            select_by_id_sql.append(" AND ");
            select_by_id_sql.append(deleted.as_str());
            select_by_id_sql.append(" IS NULL");
            select_by_id_sql.append(" LIMIT 1");
            (select_sql, select_by_id_sql)
        },
        None => {
            select_by_id_sql.append(" LIMIT 1");
            (base, select_by_id_sql)
        },
    }
}

/// The insert statement: the insert set's columns, and one placeholder for
/// each.
pub fn build_insert_sql(config: &Config, table_name: &String) -> (r: String)
    requires
        config.wf(),
        table_name@ == config.table_spec(),
    ensures
        r@ == config.insert_sql_spec(),
{
    proof {
        crate::schema::lemma_indices_in_range(config);
    }
    let mut binds: Vec<String> = Vec::new();
    let mut columns: Vec<String> = Vec::new();
    let mut k: usize = 0;
    while k < config.insert_fields.len()
        invariant
            config.wf(),
            k <= config.insert_fields@.len(),
            forall|i: int| 0 <= i < config.insert_fields@.len() ==> (#[trigger] config.insert_fields@[i]) < config.fields@.len(),
            views(binds@) =~= config.insert_binds_spec().subrange(0, k as int),
            views(columns@) =~= config.insert_columns_spec().subrange(0, k as int),
        decreases config.insert_fields@.len() - k,
    {
        let ghost prev_binds = binds@;
        binds.push(String::from_str("?"));
        let f = config.insert_fields[k];
        let ghost prev_columns = columns@;
        columns.push(config.quote_ident(config.fields[f].name.as_str()));
        proof {
            lemma_views_push(prev_binds, binds@.last());
            assert(views(binds@) =~= config.insert_binds_spec().subrange(0, k + 1));
            lemma_views_push(prev_columns, columns@.last());
            assert(views(columns@) =~= config.insert_columns_spec().subrange(0, k + 1));
        }
        k = k + 1;
    }
    proof {
        assert(config.insert_binds_spec().subrange(0, k as int) =~= config.insert_binds_spec());
        assert(config.insert_columns_spec().subrange(0, k as int) =~= config.insert_columns_spec());
    }
    let insert_sql_binds = join_parts(&binds);
    let insert_column_list = join_parts(&columns);
    let mut r = String::from_str("INSERT INTO ");
    r.append(table_name.as_str());
    r.append(" (");
    r.append(insert_column_list.as_str());
    r.append(") VALUES (");
    r.append(insert_sql_binds.as_str());
    r.append(")");
    r
}

/// The update-by-id statement: one assignment for each field of the update
/// set, then the identity predicate, whose placeholder comes last.
pub fn build_update_sql(config: &Config, table_name: &String, id_column: &String) -> (r: String)
    requires
        config.wf(),
        table_name@ == config.table_spec(),
        id_column@ == config.id_column_spec(),
    ensures
        r@ == config.update_sql_spec(),
{
    proof {
        crate::schema::lemma_indices_in_range(config);
    }
    let mut sets: Vec<String> = Vec::new();
    let mut k: usize = 0;
    while k < config.update_fields.len()
        invariant
            config.wf(),
            k <= config.update_fields@.len(),
            forall|i: int| 0 <= i < config.update_fields@.len() ==> (#[trigger] config.update_fields@[i]) < config.fields@.len(),
            views(sets@) =~= config.update_sets_spec().subrange(0, k as int),
        decreases config.update_fields@.len() - k,
    {
        let f = config.update_fields[k];
        let mut set = config.quote_ident(config.fields[f].name.as_str());
        set.append(" = ?");
        let ghost prev_sets = sets@;
        sets.push(set);
        proof {
            lemma_views_push(prev_sets, sets@.last());
            assert(views(sets@) =~= config.update_sets_spec().subrange(0, k + 1));
        }
        k = k + 1;
    }
    proof {
        assert(config.update_sets_spec().subrange(0, k as int) =~= config.update_sets_spec());
    }
    let update_sql_binds = join_parts(&sets);
    let mut r = String::from_str("UPDATE ");
    r.append(table_name.as_str());
    r.append(" SET ");
    r.append(update_sql_binds.as_str());
    r.append(" WHERE ");
    r.append(id_column.as_str());
    r.append(" = ?");
    match config.delete_ident() {
        Some(field) => {
            let deleted = config.quote_ident(field.as_str());
            r.append(" AND ");
            r.append(deleted.as_str());
            r.append(" IS NULL");
        },
        None => {},
    }
    r
}

/// The delete-by-id statement: a `DELETE`, or, where the record type has a
/// soft-delete field, an `UPDATE` that writes the field's expression, as
/// written, into that column of a row that is not yet deleted.
pub fn build_delete_sql(config: &Config, table_name: &String, id_column: &String) -> (r: String)
    requires
        config.wf(),
        table_name@ == config.table_spec(),
        id_column@ == config.id_column_spec(),
    ensures
        r@ == config.delete_sql_spec(),
{
    proof {
        crate::schema::lemma_indices_in_range(config);
    }
    match config.delete_field {
        None => {
            let mut r = String::from_str("DELETE FROM ");
            r.append(table_name.as_str());
            r.append(" WHERE ");
            r.append(id_column.as_str());
            r.append(" = ?");
            r
        },
        Some(d) => {
            let field = &config.fields[d];
            let deleted = match &field.deleted_with {
                Some(e) => e.as_str(),
                None => "",
            };
            let quoted_deleted_field = config.quote_ident(field.name.as_str());
            let mut r = String::from_str("UPDATE ");
            r.append(table_name.as_str());
            r.append(" SET ");
            r.append(quoted_deleted_field.as_str());
            r.append(" = ");
            r.append(deleted);
            r.append(" WHERE ");
            r.append(id_column.as_str());
            r.append(" = ? AND ");
            r.append(quoted_deleted_field.as_str());
            r.append(" IS NULL");
            r
        },
    }
}

/// The five statements of a record type, compiled once from its schema.
pub fn build_sql_queries(config: &Config) -> (r: SqlQueries)
    requires
        config.wf(),
    ensures
        r.select_sql@ == config.select_sql_spec(),
        r.select_by_id_sql@ == config.select_by_id_sql_spec(),
        r.insert_sql@ == config.insert_sql_spec(),
        r.update_by_id_sql@ == config.update_sql_spec(),
        r.delete_by_id_sql@ == config.delete_sql_spec(),
{
    let table_name = config.quote_ident(config.table_name.as_str());
    let mut id_column = table_name.clone();
    id_column.append(".");
    let id = config.quote_ident(config.fields[config.id_index].name.as_str());
    id_column.append(id.as_str());
    let (select_sql, select_by_id_sql) = build_select_sql(config, &table_name, &id_column);
    let insert_sql = build_insert_sql(config, &table_name);
    let update_by_id_sql = build_update_sql(config, &table_name, &id_column);
    let delete_by_id_sql = build_delete_sql(config, &table_name, &id_column);
    SqlQueries { select_sql, select_by_id_sql, insert_sql, update_by_id_sql, delete_by_id_sql }
}

/// What a record type's compiled schema holds: the names of its table, its
/// identity column and its columns, unquoted, and its statements.
#[derive(Debug)]
pub struct ModelSchema {
    /// The name of the static that holds the schema.
    pub model_schema_ident: String,
    pub table_name: String,
    pub id_column: String,
    pub columns: Vec<String>,
    pub queries: SqlQueries,
}

/// Compiles a record type's schema.
pub fn build_static_model_schema(config: &Config) -> (r: ModelSchema)
    requires
        config.wf(),
    ensures
        r.model_schema_ident@ == config.model_schema_ident@,
        r.table_name@ == config.table_name@,
        r.id_column@ == config.name_of(config.id_index as int),
        views(r.columns@) == Seq::new(config.fields@.len(), |k: int| config.name_of(k)),
        r.queries.select_sql@ == config.select_sql_spec(),
        r.queries.select_by_id_sql@ == config.select_by_id_sql_spec(),
        r.queries.insert_sql@ == config.insert_sql_spec(),
        r.queries.update_by_id_sql@ == config.update_sql_spec(),
        r.queries.delete_by_id_sql@ == config.delete_sql_spec(),
{
    let mut columns: Vec<String> = Vec::new();
    let mut k: usize = 0;
    while k < config.fields.len()
        invariant
            k <= config.fields@.len(),
            views(columns@) =~= Seq::new(config.fields@.len(), |k: int| config.name_of(k)).subrange(0, k as int),
        decreases config.fields@.len() - k,
    {
        let ghost prev_columns = columns@;
        columns.push(config.fields[k].name.clone());
        proof {
            lemma_views_push(prev_columns, columns@.last());
            assert(views(columns@) =~= Seq::new(config.fields@.len(), |k: int| config.name_of(k)).subrange(0, k + 1));
        }
        k = k + 1;
    }
    proof {
        let all = Seq::new(config.fields@.len(), |k: int| config.name_of(k));
        assert(all.subrange(0, k as int) =~= all);
    }
    ModelSchema {
        model_schema_ident: config.model_schema_ident.clone(),
        table_name: config.table_name.clone(),
        id_column: config.fields[config.id_index].name.clone(),
        columns,
        queries: build_sql_queries(config),
    }
}

/// What a soft-delete field changes, between two schemas of one record
/// type that differ in nothing else: the insert statement stays as it is;
/// select-all, select-by-id and update-by-id each gain the predicate that
/// the soft-delete column is null; delete-by-id turns from a `DELETE` into an
/// `UPDATE`.
pub proof fn lemma_soft_delete_effect(plain: &Config, soft: &Config)
    requires
        plain.wf(),
        soft.wf(),
        plain.delete_field is None,
        soft.delete_field is Some,
        plain.db_ty == soft.db_ty,
        plain.table_name@ == soft.table_name@,
        plain.id_index == soft.id_index,
        plain.insert_fields@ == soft.insert_fields@,
        plain.update_fields@ == soft.update_fields@,
        plain.fields@.len() == soft.fields@.len(),
        forall|k: int| 0 <= k < plain.fields@.len() ==> #[trigger] plain.name_of(k) == soft.name_of(k),
    ensures
        soft.insert_sql_spec() == plain.insert_sql_spec(),
        plain.select_sql_spec() == plain.select_stem(),
        soft.select_sql_spec() == plain.select_stem() + " WHERE "@ + soft.deleted_column() + " IS NULL"@,
        plain.select_by_id_sql_spec() == plain.select_by_id_stem() + " LIMIT 1"@,
        soft.select_by_id_sql_spec() == plain.select_by_id_stem() + " AND "@ + soft.deleted_column()
            + " IS NULL"@ + " LIMIT 1"@,
        plain.update_sql_spec() == plain.update_stem(),
        soft.update_sql_spec() == plain.update_stem() + " AND "@ + soft.deleted_column() + " IS NULL"@,
        plain.delete_sql_spec().subrange(0, 12) == "DELETE FROM "@,
        soft.delete_sql_spec().subrange(0, 7) == "UPDATE "@,
{
    crate::schema::lemma_indices_in_range(plain);
    assert(plain.columns_spec() =~= soft.columns_spec());
    assert(plain.insert_columns_spec() =~= soft.insert_columns_spec());
    assert(plain.insert_binds_spec() =~= soft.insert_binds_spec());
    assert(plain.update_sets_spec() =~= soft.update_sets_spec());
    reveal_strlit("DELETE FROM ");
    reveal_strlit("UPDATE ");
    assert(plain.delete_sql_spec().subrange(0, 12) =~= "DELETE FROM "@);
    assert(soft.delete_sql_spec().subrange(0, 7) =~= "UPDATE "@);
}

} // verus!
