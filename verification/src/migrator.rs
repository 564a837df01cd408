//! Schema names: validation against PostgreSQL's identifier rules, quoting
//! for splicing into SQL text, and the statements that prepare a schema.

use vstd::prelude::*;
use vstd::string::*;

verus! {

/// PostgreSQL's default `NAMEDATALEN`; an identifier holds one byte less.
pub const DEFAULT_NAMEDATALEN: usize = 64;

/// Why a schema name was turned down.
#[derive(Debug, Clone, Copy, PartialEq, Eq, Structural)]
pub enum PgIdentifierParsingError {
    Empty,
    TooLarge,
    InvalidFirstChar,
}

impl PgIdentifierParsingError {
    /// The sentence shown for this error.
    pub fn message(&self) -> (text: &'static str)
        ensures
            text@ == match *self {
                PgIdentifierParsingError::Empty => "Identifiers may not be empty"@,
                PgIdentifierParsingError::TooLarge => "Identifiers may not exceed 63 bytes"@,
                PgIdentifierParsingError::InvalidFirstChar =>
                    "Identifiers must start with [A-Za-z] or \"_\""@,
            },
    {
        match self {
            PgIdentifierParsingError::Empty => "Identifiers may not be empty",
            PgIdentifierParsingError::TooLarge => "Identifiers may not exceed 63 bytes",
            PgIdentifierParsingError::InvalidFirstChar =>
                "Identifiers must start with [A-Za-z] or \"_\"",
        }
    }
}

/// Whether an identifier may start with `c`: an ASCII letter or an underscore.
pub open spec fn is_identifier_start(c: char) -> bool {
    ('a' <= c && c <= 'z') || ('A' <= c && c <= 'Z') || c == '_'
}

/// `s` with every double quote doubled.
pub open spec fn escape_quotes(s: Seq<char>) -> Seq<char>
    decreases s.len(),
{
    if s.len() == 0 {
        Seq::empty()
    } else if s.last() == '"' {
        escape_quotes(s.drop_last()).push('"').push('"')
    } else {
        escape_quotes(s.drop_last()).push(s.last())
    }
}

/// `s` as a quoted identifier: inner quotes doubled, the whole in quotes.
pub open spec fn quote_identifier(s: Seq<char>) -> Seq<char> {
    (seq!['"'] + escape_quotes(s)).push('"')
}

/// What parsing makes of a raw schema name: the first rule broken, or the
/// quoted form.
pub open spec fn parse_identifier(raw: &str) -> Result<Seq<char>, PgIdentifierParsingError> {
    if raw@.len() == 0 {
        Err(PgIdentifierParsingError::Empty)
    } else if raw.spec_bytes().len() > DEFAULT_NAMEDATALEN - 1 {
        Err(PgIdentifierParsingError::TooLarge)
    } else if !is_identifier_start(raw@[0]) {
        Err(PgIdentifierParsingError::InvalidFirstChar)
    } else {
        Ok(quote_identifier(raw@))
    }
}

/// A schema name that passed validation, held in its quoted form.
#[derive(Debug)]
pub struct PgIdentifier {
    ident: String,
}

impl View for PgIdentifier {
    type V = Seq<char>;

    closed spec fn view(&self) -> Seq<char> {
        self.ident@
    }
}

impl PgIdentifier {
    /// Validates `raw` and quotes it.
    pub fn parse(raw: &str) -> (parsed: Result<Self, PgIdentifierParsingError>)
        ensures
            match parsed {
                Ok(ident) => parse_identifier(raw) == Ok::<_, PgIdentifierParsingError>(ident@),
                Err(e) => parse_identifier(raw) == Err::<Seq<char>, _>(e),
            },
    {
        if raw.is_empty() {
            return Err(PgIdentifierParsingError::Empty);
        }
        if raw.as_bytes().len() > DEFAULT_NAMEDATALEN - 1 {
            return Err(PgIdentifierParsingError::TooLarge);
        }
        let first_char = raw.get_char(0);
        if !(('a' <= first_char && first_char <= 'z') || ('A' <= first_char && first_char <= 'Z')
            || first_char == '_') {
            return Err(PgIdentifierParsingError::InvalidFirstChar);
        }
        let n: usize = raw.unicode_len();
        let mut ident = String::from_str("\"");
        proof {
            reveal_strlit("\"");
            reveal_strlit("\"\"");
            assert(ident@ =~= seq!['"'] + escape_quotes(raw@.subrange(0, 0)));
        }
        let mut i: usize = 0;
        while i < n
            invariant
                i <= n,
                n == raw@.len(),
                parse_identifier(raw) == Ok::<_, PgIdentifierParsingError>(quote_identifier(raw@)),
                "\""@ == seq!['"'],
                "\"\""@ == seq!['"', '"'],
                ident@ == seq!['"'] + escape_quotes(raw@.subrange(0, i as int)),
            decreases n - i,
        {
            let c = raw.get_char(i);
            proof {
                let next = raw@.subrange(0, i + 1);
                assert(next.drop_last() =~= raw@.subrange(0, i as int));
                assert(next.last() == c);
            }
            if c == '"' {
                ident.append("\"\"");
                assert(ident@ =~= seq!['"'] + escape_quotes(raw@.subrange(0, i + 1)));
            } else {
                ident.append(raw.substring_char(i, i + 1));
                assert(raw@.subrange(i as int, i + 1) =~= seq![c]);
                assert(ident@ =~= seq!['"'] + escape_quotes(raw@.subrange(0, i + 1)));
            }
            i = i + 1;
        }
        ident.append("\"");
        proof {
            assert(raw@.subrange(0, n as int) =~= raw@);
            assert(ident@ =~= quote_identifier(raw@));
        }
        Ok(PgIdentifier { ident })
    }

    /// The quoted form.
    pub fn as_ref(&self) -> (s: &str)
        ensures
            s@ == self@,
    {
        self.ident.as_str()
    }

    /// The quoted form, as an owned string.
    pub fn to_string(&self) -> (s: String)
        ensures
            s@ == self@,
    {
        self.ident.clone()
    }
}

/// The statements that prepare a schema before its migrations run.
#[derive(Debug)]
pub struct MigrationStatements {
    /// Creates the schema unless it exists.
    pub create_schema: String,
    /// Points the transaction's search path at the schema.
    pub set_search_path: String,
}

/// The text of the statement that creates the schema `ident` unless it exists.
pub open spec fn create_schema_text(ident: Seq<char>) -> Seq<char> {
    "CREATE SCHEMA IF NOT EXISTS "@ + ident + ";"@
}

/// The text of the statement that points the search path of the running
/// transaction at the schema `ident`.
pub open spec fn set_search_path_text(ident: Seq<char>) -> Seq<char> {
    "SET LOCAL search_path TO "@ + ident + ";"@
}

/// Validates the schema name and writes the statements that prepare it.
pub fn migration_statements(schema: &str) -> (made: Result<
    MigrationStatements,
    PgIdentifierParsingError,
>)
    ensures
        match made {
            Ok(statements) => parse_identifier(schema) is Ok && statements.create_schema@
                == create_schema_text(parse_identifier(schema)->Ok_0)
                && statements.set_search_path@ == set_search_path_text(
                parse_identifier(schema)->Ok_0,
            ),
            Err(e) => parse_identifier(schema) == Err::<Seq<char>, _>(e),
        },
{
    match PgIdentifier::parse(schema) {
        Err(e) => Err(e),
        Ok(ident) => {
            let mut create_schema = String::from_str("CREATE SCHEMA IF NOT EXISTS ");
            create_schema.append(ident.as_ref());
            create_schema.append(";");
            let mut set_search_path = String::from_str("SET LOCAL search_path TO ");
            set_search_path.append(ident.as_ref());
            set_search_path.append(";");
            Ok(MigrationStatements { create_schema, set_search_path })
        },
    }
}

} // verus!
