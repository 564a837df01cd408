use vstd::prelude::*;
use vstd::string::*;

verus! {

/// The text of the statement that points the search path of the running
/// transaction at `schema`, which is spliced in as it is.
pub open spec fn set_schema_text(schema: Seq<char>) -> Seq<char> {
    "SET LOCAL search_path TO "@ + schema
}

/// Writes the statement that points the search path of the running
/// transaction at `schema`. The name must already be quoted.
pub fn set_schema_statement(schema: &str) -> (statement: String)
    ensures
        statement@ == set_schema_text(schema@),
{
    let mut statement = String::from_str("SET LOCAL search_path TO ");
    statement.append(schema);
    statement
}

/// The queries of the queue, bound to one schema: each of them runs in a
/// transaction whose search path was first set to that schema.
#[derive(Debug)]
pub struct Queries {
    schema: String,
}

impl View for Queries {
    type V = Seq<char>;

    /// The schema name.
    closed spec fn view(&self) -> Seq<char> {
        self.schema@
    }
}

impl Queries {
    /// Binds the queries to `schema`, a validated and quoted schema name.
    pub fn new(schema: &str) -> (queries: Self)
        ensures
            queries@ == schema@,
    {
        Self { schema: String::from_str(schema) }
    }

    /// The schema name.
    pub fn schema(&self) -> (schema: &str)
        ensures
            schema@ == self@,
    {
        self.schema.as_str()
    }

    /// The statement that every query of the schema starts its transaction
    /// with.
    pub fn set_schema_statement(&self) -> (statement: String)
        ensures
            statement@ == set_schema_text(self@),
    {
        set_schema_statement(self.schema.as_str())
    }
}

} // verus!
