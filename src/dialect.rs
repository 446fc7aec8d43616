use vstd::prelude::*;

verus! {

/// The SQL dialect that a record type targets. It decides how identifiers are
/// quoted, and which database type the generated code names.
#[derive(Clone, Copy, Debug, PartialEq, Eq, Structural)]
pub enum DbType {
    Any,
    Mssql,
    MySql,
    Postgres,
    Sqlite,
}

/// Whether two strings hold the same characters.
pub fn same_text(a: &str, b: &str) -> (r: bool)
    ensures
        r == (a@ == b@),
{
    String::from_str(a) == String::from_str(b)
}

impl DbType {
    /// The dialect that a database tag names, if any: each dialect has two
    /// spellings, its type name and that name in lower case.
    pub open spec fn named(name: Seq<char>) -> Option<DbType> {
        if name == "Any"@ || name == "any"@ {
            Some(DbType::Any)
        } else if name == "Mssql"@ || name == "mssql"@ {
            Some(DbType::Mssql)
        } else if name == "MySql"@ || name == "mysql"@ {
            Some(DbType::MySql)
        } else if name == "Postgres"@ || name == "postgres"@ {
            Some(DbType::Postgres)
        } else if name == "Sqlite"@ || name == "sqlite"@ {
            Some(DbType::Sqlite)
        } else {
            None
        }
    }

    /// Reads a database tag; `None` for a tag that names no supported dialect.
    pub fn from_name(name: &str) -> (r: Option<DbType>)
        ensures
            r == DbType::named(name@),
    {
        if same_text(name, "Any") || same_text(name, "any") {
            Some(DbType::Any)
        } else if same_text(name, "Mssql") || same_text(name, "mssql") {
            Some(DbType::Mssql)
        } else if same_text(name, "MySql") || same_text(name, "mysql") {
            Some(DbType::MySql)
        } else if same_text(name, "Postgres") || same_text(name, "postgres") {
            Some(DbType::Postgres)
        } else if same_text(name, "Sqlite") || same_text(name, "sqlite") {
            Some(DbType::Sqlite)
        } else {
            None
        }
    }

    /// The dialect of a record type: the one its database tag names, or
    /// SQLite where it has no tag. `None` for a tag that names no dialect.
    pub open spec fn for_tag(tag: Option<&str>) -> Option<DbType> {
        match tag {
            Some(t) => DbType::named(t@),
            None => Some(DbType::Sqlite),
        }
    }

    pub fn new(tag: Option<&str>) -> (r: Option<DbType>)
        ensures
            r == DbType::for_tag(tag),
    {
        match tag {
            Some(t) => DbType::from_name(t),
            None => Some(DbType::Sqlite),
        }
    }

    /// The path of the database type that the generated code is written for.
    pub open spec fn sqlx_db_spec(self) -> Seq<char> {
        match self {
            DbType::Any => "::sqlx::Any"@,
            DbType::Mssql => "::sqlx::Mssql"@,
            DbType::MySql => "::sqlx::MySql"@,
            DbType::Postgres => "::sqlx::Postgres"@,
            DbType::Sqlite => "::sqlx::Sqlite"@,
        }
    }

    /// The path of the database type, for the generated code.
    pub fn sqlx_db(&self) -> (r: &'static str)
        ensures
            r@ == self.sqlx_db_spec(),
    {
        match self {
            DbType::Any => "::sqlx::Any",
            DbType::Mssql => "::sqlx::Mssql",
            DbType::MySql => "::sqlx::MySql",
            DbType::Postgres => "::sqlx::Postgres",
            DbType::Sqlite => "::sqlx::Sqlite",
        }
    }

    /// The identifier `s` as this dialect quotes it: between backticks for
    /// MySQL, between double quotes for every other dialect.
    pub open spec fn quoted(self, s: Seq<char>) -> Seq<char> {
        match self {
            DbType::MySql => "`"@ + s + "`"@,
            _ => "\""@ + s + "\""@,
        }
    }

    /// The character that this dialect puts on each side of an identifier.
    pub open spec fn quote_mark(self) -> char {
        match self {
            DbType::MySql => '`',
            _ => '"',
        }
    }

    /// Quotes a simple identifier; embedded quote characters are not escaped.
    pub fn quote_ident(&self, ident: &str) -> (r: String)
        ensures
            r@ == self.quoted(ident@),
    {
        let mark = match self {
            DbType::MySql => "`",
            _ => "\"",
        };
        let mut r = String::from_str(mark);
        r.append(ident);
        r.append(mark);
        r
    }
}

/// Quoting wraps an identifier once: one backtick on each side under MySQL,
/// one double quote on each side under every other dialect, and the
/// identifier unchanged between them.
pub proof fn lemma_quote_wraps(d: DbType, s: Seq<char>)
    ensures
        d.quoted(s).len() == s.len() + 2,
        d.quoted(s)[0] == d.quote_mark(),
        d.quoted(s).last() == d.quote_mark(),
        d.quoted(s).subrange(1, s.len() as int + 1) == s,
        d.quote_mark() == (if d == DbType::MySql { '`' } else { '"' }),
{
    reveal_strlit("`");
    reveal_strlit("\"");
    assert(d.quoted(s).subrange(1, s.len() as int + 1) =~= s);
}

} // verus!
